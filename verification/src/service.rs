use vstd::prelude::*;
use vstd::string::StringExecFns;

use crate::model::Error;
use crate::text::char_prefix;
use crate::text::first_chars;
use crate::text::join2;
use crate::text::int_decimal;
use crate::text::join3;
use crate::text::join4;
use crate::text::signed_decimal;

verus! {

broadcast use vstd::string::group_string_axioms;

/// The control service: the store it reads and writes, the editor harness
/// built over that store, and the model provider it tests models with.
#[derive(Clone)]
pub struct ControlService<S, H, P> {
    store: S,
    cursor_harness: H,
    provider: P,
}

impl<S, H, P> ControlService<S, H, P> {
    /// The store of the service.
    pub closed spec fn store_spec(self) -> S {
        self.store
    }

    /// The editor harness of the service.
    pub closed spec fn harness_spec(self) -> H {
        self.cursor_harness
    }

    /// The model provider of the service.
    pub closed spec fn provider_spec(self) -> P {
        self.provider
    }

    /// A service over `store` and `provider`, given how building the editor
    /// harness over the store went: it fails exactly when that failed, with
    /// the same error.
    pub fn new(store: S, provider: P, cursor_harness: Result<H, Error>) -> (r: Result<Self, Error>)
        ensures
            match cursor_harness {
                Ok(h) => r matches Ok(s) && s.store_spec() == store && s.harness_spec() == h
                    && s.provider_spec() == provider,
                Err(e) => r == Err::<Self, Error>(e),
            },
    {
        match cursor_harness {
            Ok(h) => Ok(ControlService { store, cursor_harness: h, provider }),
            Err(e) => Err(e),
        }
    }

    /// The editor harness of the service.
    pub fn cursor_harness(&self) -> (r: &H)
        ensures
            *r == self.harness_spec(),
    {
        &self.cursor_harness
    }

    /// The store of the service.
    pub fn store(&self) -> (r: &S)
        ensures
            *r == self.store_spec(),
    {
        &self.store
    }

    /// The model provider of the service.
    pub fn provider(&self) -> (r: &P)
        ensures
            *r == self.provider_spec(),
    {
        &self.provider
    }
}

/// What the store found under `id`, or the not-found error for a `what`
/// with that identifier.
pub fn found_or_missing<T>(found: Option<T>, what: &str, id: &str) -> (r: Result<T, Error>)
    ensures
        match found {
            Some(x) => r == Ok::<T, Error>(x),
            None => r matches Err(Error::RunNotFound(m)) && m@ == what@ + " "@ + id@,
        },
{
    match found {
        Some(x) => Ok(x),
        None => Err(Error::RunNotFound(join3(what, " ", id))),
    }
}

/// The stored provider with identifier `provider_id`, or the error that
/// there is none.
pub fn stored_provider<T>(found: Option<T>, provider_id: i64) -> (r: Result<T, Error>)
    ensures
        match found {
            Some(x) => r == Ok::<T, Error>(x),
            None => r matches Err(Error::RunNotFound(m)) && m@ == "provider "@ + int_decimal(
                provider_id as int,
            ),
        },
{
    let id = signed_decimal(provider_id);
    proof {
        reveal_strlit("provider");
        reveal_strlit(" ");
        reveal_strlit("provider ");
        assert("provider"@ + " "@ =~= "provider "@);
    }
    found_or_missing(found, "provider", id.as_str())
}

/// Whether calls are logged in detail.
#[derive(Clone, Copy)]
pub struct ObservabilitySettings {
    pub detailed: bool,
}

// ---------------------------------------------------------------------------
// Advertisements
// ---------------------------------------------------------------------------

/// The identifiers of dismissed advertisements to send along, where there
/// are any: an empty list is not sent.
pub fn disabled_ads_header(disabled: Option<&str>) -> (r: Option<&str>)
    ensures
        match disabled {
            Some(v) => if v@.len() > 0 {
                r == Some(v)
            } else {
                r is None
            },
            None => r is None,
        },
{
    match disabled {
        Some(v) => if v.is_empty() {
            None
        } else {
            Some(v)
        },
        None => None,
    }
}

/// How much of a refusal's body an error quotes, in characters.
pub open spec fn quoted_body_chars() -> nat {
    200
}

/// The error for an upstream request `what` that was refused with `status`:
/// it quotes the start of the body.
pub fn upstream_failure(what: &str, status: &str, body: &str) -> (e: Error)
    ensures
        e matches Error::Provider(m) && m@ == what@ + " failed ("@ + status@ + "): "@ + char_prefix(
            body@,
            quoted_body_chars(),
        ),
{
    let quoted = first_chars(body, 200);
    let head = join4(what, " failed (", status, "): ");
    Error::Provider(join2(head.as_str(), quoted.as_str()))
}

/// Whether the character after the scheme of a URL's text (the first `:`)
/// is `/`: the URL can be a base, and path segments can be added to it.
pub open spec fn slash_after_scheme(url: Seq<char>) -> bool
    decreases url.len(),
{
    if url.len() == 0 {
        false
    } else if url[0] == ':' {
        url.len() > 1 && url[1] == '/'
    } else {
        slash_after_scheme(url.drop_first())
    }
}

/// What `Url::parse` makes of `text`: the text of the URL (its
/// serialization), or the display text of the parse error.
pub uninterp spec fn url_parse_outcome(text: Seq<char>) -> Result<Seq<char>, Seq<char>>;

/// The text of the URL that `url` is, after `Url::set_query(None)`.
pub uninterp spec fn url_query_dropped(url: Seq<char>) -> Seq<char>;

/// The text of the URL that `url` is, after `PathSegmentsMut::extend` with
/// `segments`; nothing where `Url::path_segments_mut` refuses the URL.
pub uninterp spec fn url_segments_appended(url: Seq<char>, segments: Seq<Seq<char>>) -> Option<
    Seq<char>,
>;

/// Views of an optional text.
pub open spec fn opt_url(o: Option<String>) -> Option<Seq<char>> {
    match o {
        Some(s) => Some(s@),
        None => None,
    }
}

/// `Url::parse`, with the URL given back as its text and the error as its
/// display text. The outcome depends on the text alone, named
/// `url_parse_outcome`; the text of a parsed URL parses to itself.
#[verifier::external_body]
fn parse_url(text: &str) -> (r: Result<String, String>)
    ensures
        r is Ok ==> url_parse_outcome(text@) == Ok::<Seq<char>, Seq<char>>(r->Ok_0@),
        r is Ok ==> url_parse_outcome(r->Ok_0@) == Ok::<Seq<char>, Seq<char>>(r->Ok_0@),
        r is Err ==> url_parse_outcome(text@) == Err::<Seq<char>, Seq<char>>(r->Err_0@),
{
    url::Url::parse(text).map(String::from).map_err(|e| e.to_string())
}

/// `Url::set_query(None)` on the URL whose text is `url`, given back as
/// text: named `url_query_dropped`. The result is again the text of a URL,
/// and whether it can be a base is unchanged, since only what follows the
/// path changes.
#[verifier::external_body]
fn url_without_query(url: &str) -> (r: String)
    requires
        url_parse_outcome(url@) == Ok::<Seq<char>, Seq<char>>(url@),
    ensures
        r@ == url_query_dropped(url@),
        url_parse_outcome(r@) == Ok::<Seq<char>, Seq<char>>(r@),
        slash_after_scheme(r@) == slash_after_scheme(url@),
{
    match url::Url::parse(url) {
        Ok(mut parsed) => {
            parsed.set_query(None);
            String::from(parsed)
        },
        Err(_) => String::from(url),
    }
}

/// `Url::path_segments_mut` and `PathSegmentsMut::extend` on the URL whose
/// text is `url`, given back as text: named `url_segments_appended`. Each
/// segment is percent-encoded; the URL is refused exactly when it cannot be
/// a base, that is when no `/` follows its scheme.
#[verifier::external_body]
fn url_with_segments(url: &str, segments: &[&str]) -> (r: Option<String>)
    requires
        url_parse_outcome(url@) == Ok::<Seq<char>, Seq<char>>(url@),
    ensures
        opt_url(r) == url_segments_appended(url@, segments@.map_values(|s: &str| s@)),
        r is Some == slash_after_scheme(url@),
{
    let mut parsed = url::Url::parse(url).ok()?;
    parsed.path_segments_mut().ok()?.extend(segments);
    Some(String::from(parsed))
}

/// The address at which an advertisement is dismissed: the advertisement
/// endpoint without its query, with the advertisement's identifier and
/// `dismissals` appended as path segments.
pub fn ad_dismissal_url(endpoint: &str, ad_id: &str) -> (r: Result<String, Error>)
    ensures
        match url_parse_outcome(endpoint@) {
            Err(m) => r matches Err(Error::Config(msg)) && msg@
                == "advertisement endpoint is invalid: "@ + m,
            Ok(parsed) => if slash_after_scheme(parsed) {
                r matches Ok(u) && Some(u@) == url_segments_appended(
                    url_query_dropped(parsed),
                    seq![ad_id@, "dismissals"@],
                )
            } else {
                r matches Err(Error::Config(msg)) && msg@
                    == "advertisement endpoint cannot contain an ad id"@
            },
        },
{
    let parsed = match parse_url(endpoint) {
        Ok(u) => u,
        Err(m) => {
            return Err(Error::Config(join2("advertisement endpoint is invalid: ", m.as_str())));
        },
    };
    let base = url_without_query(parsed.as_str());
    let mut segments: Vec<&str> = Vec::new();
    segments.push(ad_id);
    segments.push("dismissals");
    assert(segments@.map_values(|s: &str| s@) =~= seq![ad_id@, "dismissals"@]);
    match url_with_segments(base.as_str(), segments.as_slice()) {
        Some(u) => Ok(u),
        None => Err(Error::Config(String::from_str("advertisement endpoint cannot contain an ad id"))),
    }
}

} // verus!
