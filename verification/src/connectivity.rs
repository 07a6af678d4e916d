use vstd::prelude::*;
use vstd::string::StringExecFns;

use crate::model::Error;
use crate::text::blank_text;
use crate::text::estimate_output_tokens;
use crate::text::estimated_tokens;
use crate::text::is_blank;
use crate::text::is_white_space;
use crate::text::join2;
use crate::text::trim_text;
use crate::text::trimmed;

verus! {

broadcast use vstd::string::group_string_axioms;

// ---------------------------------------------------------------------------
// The probe request
// ---------------------------------------------------------------------------

/// The prompt that a connectivity test sends.
pub open spec fn connectivity_prompt_text() -> Seq<char> {
    "Output the numbers 1 through 120 separated by a single space. No commas, no newlines, no explanation."@
}

/// The prompt that a connectivity test sends.
pub fn connectivity_prompt() -> (r: &'static str)
    ensures
        r@ == connectivity_prompt_text(),
{
    "Output the numbers 1 through 120 separated by a single space. No commas, no newlines, no explanation."
}

/// How long a connectivity test may take, in seconds.
pub fn connectivity_timeout_secs() -> (r: u64)
    ensures
        r == 45,
{
    45
}

/// A character of the lowercase hexadecimal alphabet.
pub open spec fn is_lower_hex(c: char) -> bool {
    ('0' <= c && c <= '9') || ('a' <= c && c <= 'f')
}

/// The text of a hyphenated UUID: 36 characters, lowercase hex digits with
/// hyphens at 8, 13, 18 and 23.
pub open spec fn is_hyphenated_uuid(s: Seq<char>) -> bool {
    &&& s.len() == 36
    &&& forall|i: int|
        0 <= i < 36 ==> if i == 8 || i == 13 || i == 18 || i == 23 {
            #[trigger] s[i] == '-'
        } else {
            is_lower_hex(s[i])
        }
}

/// The text of a random (version 4, RFC 4122 variant) UUID: the version digit
/// is `4` and the variant digit one of `8`, `9`, `a`, `b`.
pub open spec fn is_random_uuid(s: Seq<char>) -> bool {
    &&& is_hyphenated_uuid(s)
    &&& s[14] == '4'
    &&& (s[19] == '8' || s[19] == '9' || s[19] == 'a' || s[19] == 'b')
}

/// `Uuid::new_v4()` rendered by its `Display`: a random UUID, so only its
/// hyphenated lowercase shape and its version and variant digits are known,
/// not its other digits.
#[verifier::external_body]
fn random_uuid_text() -> (r: String)
    ensures
        is_random_uuid(r@),
{
    uuid::Uuid::new_v4().to_string()
}

/// A fresh identifier for one connectivity test: `model-test-` and a random
/// UUID.
pub fn connectivity_test_id() -> (r: String)
    ensures
        r@.len() == 47,
        r@.take(11) == "model-test-"@,
        is_random_uuid(r@.skip(11)),
{
    proof {
        reveal_strlit("model-test-");
    }
    let id = random_uuid_text();
    let r = join2("model-test-", id.as_str());
    assert(r@.take(11) =~= "model-test-"@);
    assert(r@.skip(11) =~= id@);
    r
}

/// The reasoning effort to ask for: the configured one where it is not
/// blank, else medium.
pub open spec fn chosen_effort(configured: Option<String>) -> Seq<char> {
    match configured {
        Some(e) => if is_blank(e@) {
            "medium"@
        } else {
            e@
        },
        None => "medium"@,
    }
}

/// A configured effort that trims to nothing (the empty text too), or no
/// configured effort, asks for medium; any other configured effort is asked
/// for as it was configured; so the effort asked for never trims to nothing.
pub proof fn lemma_effort_choice(configured: Option<String>)
    ensures
        configured is None ==> chosen_effort(configured) == "medium"@,
        configured matches Some(e) ==> (trimmed(e@).len() == 0 ==> chosen_effort(configured)
            == "medium"@),
        configured matches Some(e) ==> (trimmed(e@).len() > 0 ==> chosen_effort(configured)
            == e@),
        trimmed(chosen_effort(configured)).len() > 0,
{
    reveal_strlit("medium");
    assert(!is_white_space("medium"@[0]));
    assert(!is_blank("medium"@));
    crate::text::lemma_trimmed_empty_iff_blank("medium"@);
    if let Some(e) = configured {
        crate::text::lemma_trimmed_empty_iff_blank(e@);
    }
}

/// The reasoning effort to ask for.
pub fn reasoning_effort(configured: Option<String>) -> (r: String)
    ensures
        r@ == chosen_effort(configured),
{
    match configured {
        Some(e) => {
            if blank_text(e.as_str()) {
                String::from_str("medium")
            } else {
                e
            }
        },
        None => String::from_str("medium"),
    }
}

/// What a connectivity test asks of a model: one user message with the test
/// prompt, no instructions, no tools, and reasoning where the model is
/// configured with it.
pub struct ConnectivityRequest {
    pub call_id: String,
    pub run_id: String,
    pub conversation_id: String,
    pub provider_call_index: i64,
    pub model_id: String,
    pub reasoning_enabled: bool,
    pub reasoning_effort: Option<String>,
    pub instructions: String,
    pub message_id: String,
    pub prompt: String,
}

/// The request of a connectivity test of the model `model_hash`.
pub fn connectivity_request(
    model_hash: &str,
    reasoning_enabled: bool,
    configured_effort: Option<String>,
    test_id: String,
) -> (r: ConnectivityRequest)
    ensures
        r.call_id@ == test_id@,
        r.run_id@ == test_id@,
        r.conversation_id@ == test_id@,
        r.provider_call_index == 0,
        r.model_id@ == model_hash@,
        r.reasoning_enabled == reasoning_enabled,
        reasoning_enabled ==> (r.reasoning_effort matches Some(e) && e@ == chosen_effort(
            configured_effort,
        )),
        !reasoning_enabled ==> r.reasoning_effort is None,
        r.instructions@.len() == 0,
        r.message_id@ == "connectivity-test"@,
        r.prompt@ == connectivity_prompt_text(),
{
    let effort = if reasoning_enabled {
        Some(reasoning_effort(configured_effort))
    } else {
        None
    };
    ConnectivityRequest {
        call_id: test_id.clone(),
        run_id: test_id.clone(),
        conversation_id: test_id,
        provider_call_index: 0,
        model_id: String::from_str(model_hash),
        reasoning_enabled,
        reasoning_effort: effort,
        instructions: String::new(),
        message_id: String::from_str("connectivity-test"),
        prompt: String::from_str(connectivity_prompt()),
    }
}

// ---------------------------------------------------------------------------
// Watching the streamed answer
// ---------------------------------------------------------------------------

/// What the probe takes from one event of the model's stream.
pub enum ProbeEvent {
    /// More answer text.
    TextDelta(String),
    /// A usage report, with the output tokens counted so far where known.
    Usage(Option<u64>),
    /// The answer is complete.
    Done,
    /// Anything else the stream reports.
    Other,
}

/// What has been seen of the stream so far.
pub struct ProbeState {
    pub first_text_ms: Option<u64>,
    pub output_tokens: Option<u64>,
    pub output: Seq<char>,
    pub finished: bool,
}

/// The state of a connectivity probe while the answer streams in.
pub struct ConnectivityProbe {
    pub first_text_ms: Option<u64>,
    pub output_tokens: Option<u64>,
    pub output: String,
    pub finished: bool,
}

impl View for ConnectivityProbe {
    type V = ProbeState;

    open spec fn view(&self) -> ProbeState {
        ProbeState {
            first_text_ms: self.first_text_ms,
            output_tokens: self.output_tokens,
            output: self.output@,
            finished: self.finished,
        }
    }
}

/// The state before any event.
pub open spec fn initial_probe() -> ProbeState {
    ProbeState { first_text_ms: None, output_tokens: None, output: Seq::empty(), finished: false }
}

/// The state after `e`, seen `at_ms` milliseconds into the test: text is
/// appended, and the first text that is not blank sets the time to first
/// text; a positive token count raises the count to the larger of the two;
/// completion is remembered.
pub open spec fn probe_step(s: ProbeState, e: ProbeEvent, at_ms: u64) -> ProbeState {
    match e {
        ProbeEvent::TextDelta(d) => ProbeState {
            first_text_ms: if s.first_text_ms is None && !is_blank(d@) {
                Some(at_ms)
            } else {
                s.first_text_ms
            },
            output: s.output + d@,
            ..s
        },
        ProbeEvent::Usage(Some(t)) => if t > 0 {
            ProbeState {
                output_tokens: match s.output_tokens {
                    Some(c) => Some(if c >= t {
                        c
                    } else {
                        t
                    }),
                    None => Some(t),
                },
                ..s
            }
        } else {
            s
        },
        ProbeEvent::Usage(None) => s,
        ProbeEvent::Done => ProbeState { finished: true, ..s },
        ProbeEvent::Other => s,
    }
}

/// The state after the events `events`, each with the time at which it was
/// seen.
pub open spec fn probe_run(events: Seq<(ProbeEvent, u64)>) -> ProbeState
    decreases events.len(),
{
    if events.len() == 0 {
        initial_probe()
    } else {
        probe_step(probe_run(events.drop_last()), events.last().0, events.last().1)
    }
}

/// The text of an event, where it carries text.
pub open spec fn delta_text(e: ProbeEvent) -> Seq<char> {
    match e {
        ProbeEvent::TextDelta(d) => d@,
        _ => Seq::empty(),
    }
}

/// The texts of `events`, one after the other.
pub open spec fn streamed_text(events: Seq<(ProbeEvent, u64)>) -> Seq<char>
    decreases events.len(),
{
    if events.len() == 0 {
        Seq::empty()
    } else {
        streamed_text(events.drop_last()) + delta_text(events.last().0)
    }
}

/// A positive token count that the event reports, where it reports one.
pub open spec fn reported_tokens(e: ProbeEvent) -> Option<u64> {
    match e {
        ProbeEvent::Usage(Some(t)) => if t > 0 {
            Some(t)
        } else {
            None
        },
        _ => None,
    }
}

/// The event brings answer text that is more than whitespace.
pub open spec fn starts_text(e: ProbeEvent) -> bool {
    e matches ProbeEvent::TextDelta(d) && trimmed(d@).len() > 0
}

/// The time to first text is the time of the first event that brings text
/// that is more than whitespace, and there is none where no event does.
pub proof fn lemma_first_text_time(events: Seq<(ProbeEvent, u64)>)
    ensures
        probe_run(events).first_text_ms is None <==> forall|i: int|
            0 <= i < events.len() ==> !starts_text((#[trigger] events[i]).0),
        probe_run(events).first_text_ms matches Some(t) ==> exists|i: int|
            0 <= i < events.len() && starts_text((#[trigger] events[i]).0) && events[i].1 == t
                && forall|j: int| 0 <= j < i ==> !starts_text((#[trigger] events[j]).0),
    decreases events.len(),
{
    if events.len() > 0 {
        let prev = events.drop_last();
        lemma_first_text_time(prev);
        let last = events.len() - 1;
        assert forall|i: int| 0 <= i < prev.len() implies #[trigger] prev[i] == events[i] by {}
        let s = probe_run(prev);
        let e = events[last].0;
        assert(events.last() == events[last]);
        if let ProbeEvent::TextDelta(d) = e {
            crate::text::lemma_trimmed_empty_iff_blank(d@);
        }
        match s.first_text_ms {
            Some(t) => {
                let i = choose|i: int|
                    0 <= i < prev.len() && starts_text((#[trigger] prev[i]).0) && prev[i].1 == t
                        && forall|j: int| 0 <= j < i ==> !starts_text((#[trigger] prev[j]).0);
                assert(starts_text(events[i].0) && events[i].1 == t);
                assert forall|j: int| 0 <= j < i implies !starts_text((#[trigger] events[j]).0) by {
                    assert(events[j] == prev[j]);
                }
            },
            None => {
                if starts_text(e) {
                    assert forall|j: int| 0 <= j < last implies !starts_text((#[trigger] events[j]).0) by {
                        assert(events[j] == prev[j]);
                    }
                } else {
                    assert forall|i: int| 0 <= i < events.len() implies !starts_text(
                        (#[trigger] events[i]).0,
                    ) by {
                        if i < last {
                            assert(events[i] == prev[i]);
                        }
                    }
                }
            },
        }
    }
}

/// The answer text of the probe is everything that the stream sent, in order.
pub proof fn lemma_probe_output_is_stream(events: Seq<(ProbeEvent, u64)>)
    ensures
        probe_run(events).output == streamed_text(events),
    decreases events.len(),
{
    if events.len() > 0 {
        lemma_probe_output_is_stream(events.drop_last());
        let s = probe_run(events.drop_last());
        match events.last().0 {
            ProbeEvent::TextDelta(d) => {},
            ProbeEvent::Usage(t) => {
                assert(delta_text(events.last().0) =~= Seq::<char>::empty());
                assert(streamed_text(events) =~= streamed_text(events.drop_last()));
            },
            _ => {
                assert(streamed_text(events) =~= streamed_text(events.drop_last()));
            },
        }
    }
}

/// The probe counts as finished exactly when the stream said it was done.
pub proof fn lemma_probe_finished_iff_done(events: Seq<(ProbeEvent, u64)>)
    ensures
        probe_run(events).finished == exists|i: int|
            0 <= i < events.len() && (#[trigger] events[i]).0 is Done,
    decreases events.len(),
{
    if events.len() > 0 {
        let prev = events.drop_last();
        lemma_probe_finished_iff_done(prev);
        if exists|i: int| 0 <= i < prev.len() && (#[trigger] prev[i]).0 is Done {
            let i = choose|i: int| 0 <= i < prev.len() && (#[trigger] prev[i]).0 is Done;
            assert(events[i] == prev[i]);
        }
        if exists|i: int| 0 <= i < events.len() && (#[trigger] events[i]).0 is Done {
            let i = choose|i: int| 0 <= i < events.len() && (#[trigger] events[i]).0 is Done;
            if i < events.len() - 1 {
                assert(prev[i] == events[i]);
            }
        }
    }
}

/// The token count of the probe is the largest positive count that the
/// stream reported, and none where it reported none.
pub proof fn lemma_probe_tokens_are_largest_report(events: Seq<(ProbeEvent, u64)>)
    ensures
        probe_run(events).output_tokens is None <==> forall|i: int|
            0 <= i < events.len() ==> reported_tokens((#[trigger] events[i]).0) is None,
        probe_run(events).output_tokens matches Some(t) ==> {
            &&& forall|i: int|
                0 <= i < events.len() ==> (reported_tokens((#[trigger] events[i]).0) matches Some(
                    u,
                ) ==> u <= t)
            &&& exists|i: int|
                0 <= i < events.len() && reported_tokens((#[trigger] events[i]).0) == Some(t)
        },
    decreases events.len(),
{
    if events.len() > 0 {
        let prev = events.drop_last();
        lemma_probe_tokens_are_largest_report(prev);
        let last = events.len() - 1;
        assert forall|i: int| 0 <= i < prev.len() implies #[trigger] prev[i] == events[i] by {}
        let s = probe_run(prev);
        let r = probe_run(events);
        if let Some(t) = r.output_tokens {
            assert forall|i: int| 0 <= i < events.len() implies (reported_tokens(
                (#[trigger] events[i]).0,
            ) matches Some(u) ==> u <= t) by {
                if i < last {
                    assert(prev[i] == events[i]);
                    if let Some(u) = reported_tokens(events[i].0) {
                        assert(s.output_tokens is Some);
                    }
                }
            }
            if reported_tokens(events[last].0) == Some(t) {
                assert(reported_tokens(events[last].0) == Some(t));
            } else {
                let i = choose|i: int|
                    0 <= i < prev.len() && reported_tokens((#[trigger] prev[i]).0) == s.output_tokens;
                assert(reported_tokens(events[i].0) == Some(t));
            }
        }
        if r.output_tokens is None {
            assert forall|i: int| 0 <= i < events.len() implies reported_tokens(
                (#[trigger] events[i]).0,
            ) is None by {
                if i < last {
                    assert(reported_tokens(prev[i].0) is None);
                }
            }
        } else {
            if forall|i: int| 0 <= i < events.len() ==> reported_tokens((#[trigger] events[i]).0) is None {
                assert(reported_tokens(events[last].0) is None);
                assert forall|i: int| 0 <= i < prev.len() implies reported_tokens((#[trigger] prev[i]).0) is None by {
                    assert(reported_tokens(events[i].0) is None);
                }
            }
        }
    }
}

impl ConnectivityProbe {
    /// A probe that has seen nothing yet.
    pub fn new() -> (p: ConnectivityProbe)
        ensures
            p@ == initial_probe(),
    {
        ConnectivityProbe {
            first_text_ms: None,
            output_tokens: None,
            output: String::new(),
            finished: false,
        }
    }

    /// Takes in one event, seen `at_ms` milliseconds into the test.
    pub fn observe(&mut self, event: ProbeEvent, at_ms: u64)
        ensures
            final(self)@ == probe_step(old(self)@, event, at_ms),
    {
        match event {
            ProbeEvent::TextDelta(delta) => {
                if self.first_text_ms.is_none() && !blank_text(delta.as_str()) {
                    self.first_text_ms = Some(at_ms);
                }
                self.output.append(delta.as_str());
            },
            ProbeEvent::Usage(Some(tokens)) => {
                if tokens > 0 {
                    self.output_tokens = match self.output_tokens {
                        Some(current) => Some(
                            if current >= tokens {
                                current
                            } else {
                                tokens
                            },
                        ),
                        None => Some(tokens),
                    };
                }
            },
            ProbeEvent::Usage(None) => {},
            ProbeEvent::Done => {
                self.finished = true;
            },
            ProbeEvent::Other => {},
        }
    }
}

// ---------------------------------------------------------------------------
// The outcome
// ---------------------------------------------------------------------------

/// What a connectivity test reports, but for the token rate.
pub struct ConnectivityOutcome {
    pub duration_ms: u64,
    pub first_text_ms: Option<u64>,
    pub output_tokens: u64,
    pub tokens_estimated: bool,
    pub output: String,
}

/// A duration in milliseconds, capped at the largest `u64`.
pub fn clamp_millis(ms: u128) -> (r: u64)
    ensures
        r == if ms > u64::MAX {
            u64::MAX as int
        } else {
            ms as int
        },
{
    if ms > u64::MAX as u128 {
        u64::MAX
    } else {
        ms as u64
    }
}

/// A duration in milliseconds, capped at the largest `i64`.
pub fn clamp_millis_signed(ms: u128) -> (r: i64)
    ensures
        r == if ms > i64::MAX {
            i64::MAX as int
        } else {
            ms as int
        },
{
    if ms > i64::MAX as u128 {
        i64::MAX
    } else {
        ms as i64
    }
}

/// The outcome of a test whose stream has ended `elapsed_ms` milliseconds
/// in: an error where the stream never said it was done; else the trimmed
/// answer, with the reported token count, or an estimate from the trimmed
/// answer where none was reported.
pub fn finish_probe(probe: ConnectivityProbe, elapsed_ms: u64) -> (r: Result<
    ConnectivityOutcome,
    Error,
>)
    ensures
        !probe@.finished ==> (r matches Err(Error::Protocol(m)) && m@
            == "provider stream ended without Done during connectivity test"@),
        probe@.finished ==> (r matches Ok(o) && {
            &&& o.duration_ms == elapsed_ms
            &&& o.first_text_ms == probe@.first_text_ms
            &&& o.output@ == trimmed(probe@.output)
            &&& o.tokens_estimated == probe@.output_tokens is None
            &&& o.output_tokens == match probe@.output_tokens {
                Some(t) => t as int,
                None => estimated_tokens(trimmed(probe@.output)) as int,
            }
        }),
{
    if !probe.finished {
        return Err(
            Error::Protocol(
                String::from_str("provider stream ended without Done during connectivity test"),
            ),
        );
    }
    let output = trim_text(probe.output.as_str());
    let tokens_estimated = probe.output_tokens.is_none();
    let output_tokens = match probe.output_tokens {
        Some(t) => t,
        None => estimate_output_tokens(output.as_str()),
    };
    Ok(
        ConnectivityOutcome {
            duration_ms: elapsed_ms,
            first_text_ms: probe.first_text_ms,
            output_tokens,
            tokens_estimated,
            output,
        },
    )
}

/// The error of a test that ran out of time.
pub fn connectivity_timeout_error() -> (e: Error)
    ensures
        e matches Error::Provider(m) && m@ == "model connectivity test timed out after 45 seconds"@,
{
    Error::Provider(String::from_str("model connectivity test timed out after 45 seconds"))
}

/// How a test that ran out of time is recorded against its call.
#[derive(Debug)]
pub struct TimeoutRecord {
    pub status: String,
    pub duration_ms: i64,
    pub error_kind: String,
    pub error_message: String,
}

/// The record of a test that ran out of time after `elapsed_ms`
/// milliseconds.
pub fn connectivity_timeout_record(elapsed_ms: u128) -> (r: TimeoutRecord)
    ensures
        r.status@ == "error"@,
        r.duration_ms == if elapsed_ms > i64::MAX {
            i64::MAX as int
        } else {
            elapsed_ms as int
        },
        r.error_kind@ == "timeout"@,
        r.error_message@ == "model connectivity test timed out after 45 seconds"@,
{
    TimeoutRecord {
        status: String::from_str("error"),
        duration_ms: clamp_millis_signed(elapsed_ms),
        error_kind: String::from_str("timeout"),
        error_message: String::from_str("model connectivity test timed out after 45 seconds"),
    }
}

} // verus!
