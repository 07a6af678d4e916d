use vstd::prelude::*;
use vstd::string::StringExecFns;
use vstd::utf8::encode_utf8;

use crate::json::Json;
use crate::json::lookup_member;
use crate::json::member;
use crate::model::Error;
use crate::order::ascending_unique;
use crate::order::is_strictly_ascending;
use crate::order::sort_unique;
use crate::order::texts;
use crate::text::join2;
use crate::text::join3;
use crate::text::join4;

verus! {

broadcast use vstd::string::group_string_axioms;

// ---------------------------------------------------------------------------
// Model identifiers in a listing
// ---------------------------------------------------------------------------

/// The model identifiers that a provider offers.
pub struct DiscoveredModels {
    pub models: Vec<String>,
}

/// The identifier that one entry of a model listing names: the entry itself
/// where it is a string; for an object its `id` member, or where it has no
/// `id` its `name` member, where that member is a string.
pub open spec fn entry_id(item: Json) -> Option<Seq<char>> {
    match item {
        Json::Str(s) => Some(s@),
        Json::Object(fields) => match member(fields@, "id"@) {
            Some(v) => v.text(),
            None => match member(fields@, "name"@) {
                Some(v) => v.text(),
                None => None,
            },
        },
        _ => None,
    }
}

/// A listing entry that is a string names itself; an object names its `id`
/// where it has one (if that is a string) and its `name` only where it has
/// no `id`; nothing else names an identifier.
pub proof fn lemma_entry_id(item: Json)
    ensures
        item matches Json::Str(s) ==> entry_id(item) == Some(s@),
        item matches Json::Object(fields) ==> (member(fields@, "id"@) matches Some(v) ==> entry_id(
            item,
        ) == v.text()),
        item matches Json::Object(fields) ==> (member(fields@, "id"@) is None ==> entry_id(item)
            == match member(fields@, "name"@) {
            Some(v) => v.text(),
            None => None,
        }),
        !(item is Str || item is Object) ==> entry_id(item) is None,
{
}

/// The identifiers that `items` name, in order.
pub open spec fn ids_of(items: Seq<Json>) -> Seq<Seq<char>>
    decreases items.len(),
{
    if items.len() == 0 {
        Seq::empty()
    } else {
        let rest = ids_of(items.drop_last());
        match entry_id(items.last()) {
            Some(id) => rest.push(id),
            None => rest,
        }
    }
}

/// The identifiers that a listing names: those of its entries where it is an
/// array, none otherwise.
pub open spec fn listed_ids(value: Json) -> Seq<Seq<char>> {
    match value {
        Json::Array(items) => ids_of(items@),
        _ => Seq::empty(),
    }
}

/// The identifiers in one page of a model listing: those of its `data`
/// member, or of the page itself where it has none.
pub open spec fn page_ids(body: Json) -> Seq<Seq<char>> {
    match body.field("data"@) {
        Some(data) => listed_ids(data),
        None => listed_ids(body),
    }
}

/// Views of an optional text.
pub open spec fn opt_text(o: Option<String>) -> Option<Seq<char>> {
    match o {
        Some(s) => Some(s@),
        None => None,
    }
}

/// The identifier that one listing entry names.
fn entry_model_id(item: &Json) -> (r: Option<String>)
    ensures
        opt_text(r) == entry_id(*item),
{
    match item {
        Json::Str(s) => Some(s.clone()),
        Json::Object(fields) => {
            let found = match lookup_member(fields, "id") {
                Some(v) => Some(v),
                None => lookup_member(fields, "name"),
            };
            match found {
                Some(v) => match v.as_text() {
                    Some(s) => Some(s.clone()),
                    None => None,
                },
                None => None,
            }
        },
        _ => None,
    }
}

/// The identifiers that the listing `value` names, in order.
pub fn model_ids(value: &Json) -> (r: Vec<String>)
    ensures
        texts(r@) == listed_ids(*value),
{
    match value {
        Json::Array(items) => {
            let mut out: Vec<String> = Vec::new();
            let mut i: usize = 0;
            assert(texts(out@) =~= ids_of(items@.take(0)));
            while i < items.len()
                invariant
                    i <= items@.len(),
                    texts(out@) == ids_of(items@.take(i as int)),
                decreases items@.len() - i,
            {
                proof {
                    assert(items@.take(i + 1).drop_last() =~= items@.take(i as int));
                    assert(items@.take(i + 1).last() == items@[i as int]);
                }
                match entry_model_id(&items[i]) {
                    Some(id) => {
                        out.push(id);
                        assert(texts(out@) =~= ids_of(items@.take(i + 1)));
                    },
                    None => {},
                }
                i = i + 1;
            }
            assert(items@.take(items@.len() as int) =~= items@);
            out
        },
        _ => {
            let out: Vec<String> = Vec::new();
            assert(texts(out@) =~= Seq::<Seq<char>>::empty());
            out
        },
    }
}

/// The identifiers in one page of a model listing.
pub fn page_model_ids(body: &Json) -> (r: Vec<String>)
    ensures
        texts(r@) == page_ids(*body),
{
    match body.get("data") {
        Some(data) => model_ids(data),
        None => model_ids(body),
    }
}

/// The discovered models: the identifiers of all pages, sorted, each once.
pub fn discovered_models(ids: Vec<String>) -> (r: DiscoveredModels)
    ensures
        texts(r.models@) == ascending_unique(texts(ids@)),
        is_strictly_ascending(texts(r.models@)),
        forall|t: Seq<char>| texts(r.models@).contains(t) <==> texts(ids@).contains(t),
{
    DiscoveredModels { models: sort_unique(ids) }
}

// ---------------------------------------------------------------------------
// Listing requests
// ---------------------------------------------------------------------------

/// The kinds of provider endpoint that the service talks to.
pub enum ProviderType {
    OpenAiChat,
    OpenAiResponses,
    Anthropic,
}

/// Whether a provider lists its models the Anthropic way (paged, with an
/// API key header) rather than the OpenAI way (one page, bearer token).
pub fn lists_models_paged(provider_type: &ProviderType) -> (r: bool)
    ensures
        r == (*provider_type is Anthropic),
{
    match provider_type {
        ProviderType::OpenAiChat | ProviderType::OpenAiResponses => false,
        ProviderType::Anthropic => true,
    }
}

/// A request for one page of a provider's model listing.
pub struct ModelListRequest {
    pub url: String,
    pub query: Vec<(String, String)>,
    pub headers: Vec<(String, String)>,
    pub bearer_token: Option<String>,
}

/// Views of a list of name and value pairs.
pub open spec fn pair_texts(v: Seq<(String, String)>) -> Seq<(Seq<char>, Seq<char>)> {
    v.map_values(|p: (String, String)| (p.0@, p.1@))
}

/// The address of a provider's model listing.
pub open spec fn models_url(base_url: Seq<char>) -> Seq<char> {
    base_url + "/models"@
}

/// The key text that a provider was configured with (empty where none).
pub fn api_key_or_empty(api_key: &Option<String>) -> (r: String)
    ensures
        r@ == match api_key {
            Some(k) => k@,
            None => Seq::<char>::empty(),
        },
{
    match api_key {
        Some(k) => k.clone(),
        None => String::new(),
    }
}

/// The request for an OpenAI-style model listing: a bearer token where an
/// API key is set.
pub fn openai_models_request(base_url: &str, api_key: &str) -> (r: ModelListRequest)
    ensures
        r.url@ == models_url(base_url@),
        r.query@.len() == 0,
        r.headers@.len() == 0,
        opt_text(r.bearer_token) == if api_key@.len() > 0 {
            Some(api_key@)
        } else {
            None
        },
{
    let bearer_token = if !api_key.is_empty() {
        Some(String::from_str(api_key))
    } else {
        None
    };
    ModelListRequest {
        url: join2(base_url, "/models"),
        query: Vec::new(),
        headers: Vec::new(),
        bearer_token,
    }
}

/// The request for one page of an Anthropic-style model listing: pages of
/// up to a hundred, the API version, the key where one is set, and the last
/// identifier of the previous page where there was one.
pub fn anthropic_models_request(base_url: &str, api_key: &str, after_id: Option<&str>) -> (r:
    ModelListRequest)
    ensures
        r.url@ == models_url(base_url@),
        pair_texts(r.query@) == seq![("limit"@, "100"@)] + match after_id {
            Some(id) => seq![("after_id"@, id@)],
            None => Seq::empty(),
        },
        pair_texts(r.headers@) == seq![("anthropic-version"@, "2023-06-01"@)] + if api_key@.len()
            > 0 {
            seq![("x-api-key"@, api_key@)]
        } else {
            Seq::empty()
        },
        r.bearer_token is None,
{
    let mut query: Vec<(String, String)> = Vec::new();
    query.push((String::from_str("limit"), String::from_str("100")));
    match after_id {
        Some(id) => query.push((String::from_str("after_id"), String::from_str(id))),
        None => {},
    }
    let mut headers: Vec<(String, String)> = Vec::new();
    headers.push((String::from_str("anthropic-version"), String::from_str("2023-06-01")));
    if !api_key.is_empty() {
        headers.push((String::from_str("x-api-key"), String::from_str(api_key)));
    }
    let r = ModelListRequest { url: join2(base_url, "/models"), query, headers, bearer_token: None };
    assert(pair_texts(r.query@) =~= seq![("limit"@, "100"@)] + match after_id {
        Some(id) => seq![("after_id"@, id@)],
        None => Seq::empty(),
    });
    assert(pair_texts(r.headers@) =~= seq![("anthropic-version"@, "2023-06-01"@)] + if api_key@.len()
        > 0 {
        seq![("x-api-key"@, api_key@)]
    } else {
        Seq::empty()
    });
    r
}

// ---------------------------------------------------------------------------
// Paging and failures
// ---------------------------------------------------------------------------

/// The page says that more pages follow.
pub open spec fn has_more_pages(body: Json) -> bool {
    match body.field("has_more"@) {
        Some(v) => v.boolean() == Some(true),
        None => false,
    }
}

/// The text of the page's `last_id` member, where it is a string.
pub open spec fn last_id_text(body: Json) -> Option<Seq<char>> {
    match body.field("last_id"@) {
        Some(v) => v.text(),
        None => None,
    }
}

/// What follows a page of an Anthropic-style listing: nothing where it says
/// no more pages follow; else the page after its last identifier, and an
/// error where it names none.
pub fn anthropic_next_page(body: &Json) -> (r: Result<Option<String>, Error>)
    ensures
        !has_more_pages(*body) ==> r matches Ok(None),
        has_more_pages(*body) && last_id_text(*body) is Some ==> (r matches Ok(Some(id)) && Some(
            id@,
        ) == last_id_text(*body)),
        has_more_pages(*body) && last_id_text(*body) is None ==> (r matches Err(Error::Provider(m))
            && m@ == "Anthropic model response has_more without last_id"@),
{
    let more = match body.get("has_more") {
        Some(v) => match v.as_boolean() {
            Some(b) => b,
            None => false,
        },
        None => false,
    };
    if !more {
        return Ok(None);
    }
    match body.get("last_id") {
        Some(v) => match v.as_text() {
            Some(id) => Ok(Some(id.clone())),
            None => Err(
                Error::Provider(String::from_str("Anthropic model response has_more without last_id")),
            ),
        },
        None => Err(
            Error::Provider(String::from_str("Anthropic model response has_more without last_id")),
        ),
    }
}

/// The error for a model listing that the provider refused with `status`.
pub fn discovery_failure(status: &str, body: &str) -> (e: Error)
    ensures
        e matches Error::Provider(m) && m@ == "model discovery failed ("@ + status@ + "): "@
            + body@,
{
    Error::Provider(join4("model discovery failed (", status, "): ", body))
}

// ---------------------------------------------------------------------------
// Custom headers
// ---------------------------------------------------------------------------

#[verifier::external_type_specification]
#[verifier::external_body]
pub struct ExHeaderName(reqwest::header::HeaderName);

#[verifier::external_type_specification]
#[verifier::external_body]
pub struct ExHeaderValue(reqwest::header::HeaderValue);

#[verifier::external_type_specification]
#[verifier::external_body]
pub struct ExInvalidHeaderName(reqwest::header::InvalidHeaderName);

#[verifier::external_type_specification]
#[verifier::external_body]
pub struct ExInvalidHeaderValue(reqwest::header::InvalidHeaderValue);

/// A byte that a header name may hold: a token character of HTTP (letters,
/// digits and ``!#$%&'*+-.^_`|~``).
pub open spec fn is_token_byte(b: u8) -> bool {
    ||| 48 <= b <= 57
    ||| 65 <= b <= 90
    ||| 97 <= b <= 122
    ||| b == 33 || b == 35 || b == 36 || b == 37 || b == 38 || b == 39
    ||| b == 42 || b == 43 || b == 45 || b == 46
    ||| b == 94 || b == 95 || b == 96 || b == 124 || b == 126
}

/// Whether the HTTP library accepts `name` as a header name: one to 65535
/// bytes, each a token character.
pub open spec fn header_name_accepted(name: Seq<char>) -> bool {
    &&& 1 <= encode_utf8(name).len() <= 65535
    &&& forall|i: int|
        0 <= i < encode_utf8(name).len() ==> is_token_byte(#[trigger] encode_utf8(name)[i])
}

/// A byte that a header value may hold: visible ASCII, tab, or any byte of
/// a multi-byte character.
pub open spec fn header_value_byte_ok(b: u8) -> bool {
    (b >= 32 && b != 127) || b == 9
}

/// Whether the HTTP library accepts `value` as a header value.
pub open spec fn header_value_accepted(value: Seq<char>) -> bool {
    forall|i: int|
        0 <= i < encode_utf8(value).len() ==> header_value_byte_ok(#[trigger] encode_utf8(value)[i])
}

/// `HeaderName::try_from(&String)`: it succeeds exactly when the name has one
/// to 65535 bytes, each a token character.
#[verifier::external_body]
fn parse_header_name(name: &String) -> (r: Result<
    reqwest::header::HeaderName,
    reqwest::header::InvalidHeaderName,
>)
    ensures
        r is Ok == header_name_accepted(name@),
{
    reqwest::header::HeaderName::try_from(name)
}

/// `HeaderValue::try_from(&str)`: it succeeds exactly when every byte of the
/// value is visible ASCII, a tab, or part of a multi-byte character.
#[verifier::external_body]
fn parse_header_value(value: &str) -> (r: Result<
    reqwest::header::HeaderValue,
    reqwest::header::InvalidHeaderValue,
>)
    ensures
        r is Ok == header_value_accepted(value@),
{
    reqwest::header::HeaderValue::try_from(value)
}

/// The display text of `InvalidHeaderName`, which is the same for every
/// refused name.
#[verifier::external_body]
fn invalid_name_text(e: &reqwest::header::InvalidHeaderName) -> (r: String)
    ensures
        r@ == "invalid HTTP header name"@,
{
    e.to_string()
}

/// The display text of `InvalidHeaderValue`, which is the same for every
/// refused value.
#[verifier::external_body]
fn invalid_value_text(e: &reqwest::header::InvalidHeaderValue) -> (r: String)
    ensures
        r@ == "failed to parse header value"@,
{
    e.to_string()
}

/// What is wrong with one configured header.
pub enum HeaderFault {
    NotText,
    BadName,
    BadValue,
}

/// What is wrong with the configured header `m`, if anything; the value is
/// looked at before the name, and the name before the value's bytes.
pub open spec fn header_fault(m: (String, Json)) -> Option<HeaderFault> {
    match m.1.text() {
        None => Some(HeaderFault::NotText),
        Some(v) => if !header_name_accepted(m.0@) {
            Some(HeaderFault::BadName)
        } else if !header_value_accepted(v) {
            Some(HeaderFault::BadValue)
        } else {
            None
        },
    }
}

/// The message of the error for a faulty configured header.
pub open spec fn header_fault_message(m: (String, Json)) -> Seq<char> {
    match header_fault(m) {
        Some(HeaderFault::NotText) => "custom header "@ + m.0@ + " must be a string"@,
        Some(HeaderFault::BadName) => "invalid header name: "@ + "invalid HTTP header name"@,
        _ => "invalid header value: "@ + "failed to parse header value"@,
    }
}

/// Index of the first faulty configured header, if any.
pub open spec fn first_fault(fields: Seq<(String, Json)>) -> Option<int>
    decreases fields.len(),
{
    if fields.len() == 0 {
        None
    } else if header_fault(fields[0]) is Some {
        Some(0)
    } else {
        match first_fault(fields.drop_first()) {
            Some(i) => Some(i + 1),
            None => None,
        }
    }
}

/// The name and text of a configured header whose value is a string.
pub open spec fn header_pair(m: (String, Json)) -> (Seq<char>, Seq<char>) {
    (
        m.0@,
        match m.1.text() {
            Some(v) => v,
            None => Seq::empty(),
        },
    )
}

/// The configured extra headers of a provider, checked: all of them, in
/// order, where the configuration is an object of valid headers; else the
/// error for the first fault.
pub fn custom_headers(headers: &Json) -> (r: Result<Vec<(String, String)>, Error>)
    ensures
        match *headers {
            Json::Object(fields) => match first_fault(fields@) {
                None => r matches Ok(v) && pair_texts(v@) == fields@.map_values(
                    |m: (String, Json)| header_pair(m),
                ),
                Some(i) => r matches Err(Error::Config(msg)) && msg@ == header_fault_message(
                    fields@[i],
                ),
            },
            _ => r matches Err(Error::Config(msg)) && msg@ == "custom headers must be an object"@,
        },
{
    match headers {
        Json::Object(fields) => check_headers(fields),
        _ => Err(Error::Config(String::from_str("custom headers must be an object"))),
    }
}

fn check_headers(fields: &Vec<(String, Json)>) -> (r: Result<Vec<(String, String)>, Error>)
    ensures
        match first_fault(fields@) {
            None => r matches Ok(v) && pair_texts(v@) == fields@.map_values(
                |m: (String, Json)| header_pair(m),
            ),
            Some(i) => r matches Err(Error::Config(msg)) && msg@ == header_fault_message(fields@[i]),
        },
{
    let mut out: Vec<(String, String)> = Vec::new();
    let mut i: usize = 0;
    assert(fields@.subrange(0, fields@.len() as int) =~= fields@);
    while i < fields.len()
        invariant
            i <= fields@.len(),
            first_fault(fields@) == match first_fault(fields@.subrange(i as int, fields@.len() as int)) {
                Some(j) => Some(j + i),
                None => None::<int>,
            },
            pair_texts(out@) == fields@.take(i as int).map_values(|m: (String, Json)| header_pair(m)),
        decreases fields@.len() - i,
    {
        let ghost rest = fields@.subrange(i as int, fields@.len() as int);
        proof {
            assert(rest.drop_first() =~= fields@.subrange(i + 1, fields@.len() as int));
            assert(rest[0] == fields@[i as int]);
        }
        let name = &fields[i].0;
        let value = match fields[i].1.as_text() {
            Some(v) => v,
            None => {
                assert(first_fault(fields@) == Some(i as int));
                return Err(Error::Config(join3("custom header ", name.as_str(), " must be a string")));
            },
        };
        match parse_header_name(name) {
            Ok(_) => {},
            Err(e) => {
                assert(first_fault(fields@) == Some(i as int));
                return Err(Error::Config(join2("invalid header name: ", invalid_name_text(&e).as_str())));
            },
        }
        match parse_header_value(value.as_str()) {
            Ok(_) => {},
            Err(e) => {
                assert(first_fault(fields@) == Some(i as int));
                return Err(
                    Error::Config(join2("invalid header value: ", invalid_value_text(&e).as_str())),
                );
            },
        }
        let ghost before = out@;
        let pair = (name.clone(), value.clone());
        assert((pair.0@, pair.1@) == header_pair(fields@[i as int]));
        out.push(pair);
        proof {
            assert(out@ =~= before.push(pair));
            assert(pair_texts(out@) =~= pair_texts(before).push((pair.0@, pair.1@)));
            assert(fields@.take(i + 1) =~= fields@.take(i as int).push(fields@[i as int]));
            assert(pair_texts(out@) =~= fields@.take(i + 1).map_values(
                |m: (String, Json)| header_pair(m),
            ));
        }
        i = i + 1;
    }
    assert(fields@.take(i as int) =~= fields@);
    assert(fields@.subrange(i as int, fields@.len() as int).len() == 0);
    Ok(out)
}

} // verus!
