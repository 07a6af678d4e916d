use vstd::prelude::*;
use vstd::string::StrSliceExecFns;
use vstd::string::StringExecFns;
use vstd::utf8::decode_utf8;
use vstd::utf8::encode_utf8;
use vstd::utf8::valid_utf8;

use crate::codec::base64_decode;
use crate::codec::base64_encode;
use crate::codec::lemma_base64_round_trip;
use crate::json::Json;
use crate::json::same_text;
use crate::model::CursorRunTraceArtifact;
use crate::model::CursorRunTraceSummary;
use crate::model::Error;
use crate::model::LlmCallSummary;
use crate::text::chars_of;
use crate::text::control_char;
use crate::text::is_control_char;
use crate::text::join2;

verus! {

broadcast use vstd::string::group_string_axioms;

// ---------------------------------------------------------------------------
// Call summaries
// ---------------------------------------------------------------------------

/// A call as the call listing shows it: the summary, what kind of call it was
/// and which route it took.
pub struct CallSummary {
    pub call: LlmCallSummary,
    pub call_kind: &'static str,
    pub route: &'static str,
}

/// The prefix that marks the identifier of a call made through the vendor's
/// own route.
pub open spec fn official_prefix() -> Seq<char> {
    "cursor:"@
}

/// `end - start`, but never below zero.
pub open spec fn gap_ms(end: i64, start: i64) -> int {
    if end - start < 0 {
        0
    } else {
        end - start
    }
}

/// Whether an optional end time, measured from `start`, fits in an `i64`.
pub open spec fn gap_fits(end: Option<i64>, start: i64) -> bool {
    match end {
        Some(e) => i64::MIN <= e - start <= i64::MAX,
        None => true,
    }
}

/// The gap from `start` to an optional end time, never below zero.
pub open spec fn optional_gap(end: Option<i64>, start: i64) -> Option<int> {
    match end {
        Some(e) => Some(gap_ms(e, start)),
        None => None,
    }
}

/// Views of an optional text.
pub open spec fn text_view(o: Option<String>) -> Option<Seq<char>> {
    match o {
        Some(s) => Some(s@),
        None => None,
    }
}

/// Views of an optional integer as a mathematical integer.
pub open spec fn int_view(o: Option<i64>) -> Option<int> {
    match o {
        Some(x) => Some(x as int),
        None => None,
    }
}

/// The times of a trace leave room to measure its latencies.
pub open spec fn trace_times_fit(t: CursorRunTraceSummary) -> bool {
    &&& gap_fits(t.first_response_at_ms, t.received_at_ms)
    &&& gap_fits(t.finished_at_ms, t.received_at_ms)
}

/// `c` is the summary that the listing shows for the traced request `t`.
pub open spec fn is_official_summary(t: CursorRunTraceSummary, c: LlmCallSummary) -> bool {
    let model = match t.model_id {
        Some(m) => m@,
        None => "Cursor"@,
    };
    &&& c.call_id@ == official_prefix() + t.request_id@
    &&& c.run_id@ == t.request_id@
    &&& c.conversation_id@ == match t.conversation_id {
        Some(id) => id@,
        None => t.request_id@,
    }
    &&& c.provider_call_index == 0
    &&& c.model_hash is None
    &&& c.provider_type@ == "cursor-official"@
    &&& c.provider_url@ == "https://api2.cursor.sh"@
    &&& c.request_type@ == "cursor-run-sse"@
    &&& c.request_url@ == "https://api2.cursor.sh/agent.v1.AgentService/RunSSE"@
    &&& c.model_id@ == model
    &&& c.display_name@ == model
    &&& c.reasoning_effort is None
    &&& c.fast is None
    &&& c.status@ == t.status@
    &&& c.finish_reason is None
    &&& c.created_at_ms == t.received_at_ms
    &&& c.request_started_at_ms == Some(t.received_at_ms)
    &&& c.response_headers_at_ms == t.first_response_at_ms
    &&& c.first_event_at_ms == t.first_response_at_ms
    &&& c.first_text_at_ms is None
    &&& c.finished_at_ms == t.finished_at_ms
    &&& c.queue_ms is None
    &&& int_view(c.ttfb_ms) == optional_gap(t.first_response_at_ms, t.received_at_ms)
    &&& c.ttft_ms is None
    &&& int_view(c.duration_ms) == optional_gap(t.finished_at_ms, t.received_at_ms)
    &&& c.input_tokens is None
    &&& c.output_tokens is None
    &&& c.total_tokens is None
    &&& c.cache_read_tokens is None
    &&& c.cache_write_tokens is None
    &&& c.reasoning_tokens is None
    &&& c.usage is None
    &&& c.message_count == 0
    &&& c.tool_count == 0
    &&& c.request_bytes == Some(t.request_bytes)
    &&& c.response_bytes == t.response_bytes
    &&& c.stream_event_count == t.response_event_count
    &&& c.http_status == t.http_status
    &&& text_view(c.error_kind) == match t.error_message {
        Some(_) => Some("cursor_official"@),
        None => None,
    }
    &&& text_view(c.error_message) == text_view(t.error_message)
    &&& c.detailed
}

/// The latencies that the listing shows for a traced request are never
/// negative, even where the trace's clock went backwards.
pub proof fn lemma_official_latencies_not_negative(t: CursorRunTraceSummary, c: LlmCallSummary)
    requires
        is_official_summary(t, c),
    ensures
        c.ttfb_ms matches Some(x) ==> x >= 0,
        c.duration_ms matches Some(x) ==> x >= 0,
{
}

/// A copy of an optional text.
pub fn copy_text(o: &Option<String>) -> (r: Option<String>)
    ensures
        r == *o,
{
    match o {
        Some(s) => Some(s.clone()),
        None => None,
    }
}

/// The gap from `start` to an optional end time, never below zero.
fn latency(end: Option<i64>, start: i64) -> (r: Option<i64>)
    requires
        gap_fits(end, start),
    ensures
        int_view(r) == optional_gap(end, start),
{
    match end {
        Some(e) => {
            let d = e - start;
            Some(
                if d < 0 {
                    0
                } else {
                    d
                },
            )
        },
        None => None,
    }
}

/// The listing entry of a call made through a configured provider.
pub fn provider_call(call: LlmCallSummary) -> (r: CallSummary)
    ensures
        r.call == call,
        r.call_kind@ == "provider_llm"@,
        r.route@ == "local_byok"@,
{
    CallSummary { call, call_kind: "provider_llm", route: "local_byok" }
}

/// The listing entry of a request traced on the vendor's own route.
pub fn official_call(trace: CursorRunTraceSummary) -> (r: CallSummary)
    requires
        trace_times_fit(trace),
    ensures
        is_official_summary(trace, r.call),
        r.call_kind@ == "cursor_official"@,
        r.route@ == "cursor_official"@,
{
    let model_id = match &trace.model_id {
        Some(m) => m.clone(),
        None => String::from_str("Cursor"),
    };
    let ttfb = latency(trace.first_response_at_ms, trace.received_at_ms);
    let duration = latency(trace.finished_at_ms, trace.received_at_ms);
    let error = copy_text(&trace.error_message);
    let error_kind = match &error {
        Some(_) => Some(String::from_str("cursor_official")),
        None => None,
    };
    let conversation_id = match &trace.conversation_id {
        Some(id) => id.clone(),
        None => trace.request_id.clone(),
    };
    let call = LlmCallSummary {
        call_id: join2("cursor:", trace.request_id.as_str()),
        run_id: trace.request_id.clone(),
        conversation_id,
        provider_call_index: 0,
        model_hash: None,
        provider_type: String::from_str("cursor-official"),
        provider_url: String::from_str("https://api2.cursor.sh"),
        request_type: String::from_str("cursor-run-sse"),
        request_url: String::from_str("https://api2.cursor.sh/agent.v1.AgentService/RunSSE"),
        model_id: model_id.clone(),
        display_name: model_id,
        reasoning_effort: None,
        fast: None,
        status: trace.status.clone(),
        finish_reason: None,
        created_at_ms: trace.received_at_ms,
        request_started_at_ms: Some(trace.received_at_ms),
        response_headers_at_ms: trace.first_response_at_ms,
        first_event_at_ms: trace.first_response_at_ms,
        first_text_at_ms: None,
        finished_at_ms: trace.finished_at_ms,
        queue_ms: None,
        ttfb_ms: ttfb,
        ttft_ms: None,
        duration_ms: duration,
        input_tokens: None,
        output_tokens: None,
        total_tokens: None,
        cache_read_tokens: None,
        cache_write_tokens: None,
        reasoning_tokens: None,
        usage: None,
        message_count: 0,
        tool_count: 0,
        request_bytes: Some(trace.request_bytes),
        response_bytes: trace.response_bytes,
        stream_event_count: trace.response_event_count,
        http_status: trace.http_status,
        error_kind,
        error_message: error,
        detailed: true,
    };
    CallSummary { call, call_kind: "cursor_official", route: "cursor_official" }
}


// ---------------------------------------------------------------------------
// The call listing: newest first, stable, capped
// ---------------------------------------------------------------------------

/// Where a call created at `at` goes in a listing that is ordered newest
/// first: after every call created at `at` or later.
pub open spec fn insert_pos(r: Seq<CallSummary>, at: i64) -> nat
    decreases r.len(),
{
    if r.len() == 0 || r[0].call.created_at_ms < at {
        0
    } else {
        1 + insert_pos(r.drop_first(), at)
    }
}

/// `x` put into the listing `r` at its place.
pub open spec fn insert_newest_first(r: Seq<CallSummary>, x: CallSummary) -> Seq<CallSummary> {
    r.insert(insert_pos(r, x.call.created_at_ms) as int, x)
}

/// The calls of `s`, newest first; calls created at the same moment keep
/// the order that they have in `s`.
pub open spec fn newest_first(s: Seq<CallSummary>) -> Seq<CallSummary>
    decreases s.len(),
{
    if s.len() == 0 {
        s
    } else {
        insert_newest_first(newest_first(s.drop_last()), s.last())
    }
}

/// No call of `r` is older than one that follows it.
pub open spec fn is_newest_first(r: Seq<CallSummary>) -> bool {
    forall|i: int, j: int|
        0 <= i < j < r.len() ==> r[j].call.created_at_ms <= r[i].call.created_at_ms
}

/// The calls of `s` created at `at`, in order.
pub open spec fn created_at(s: Seq<CallSummary>, at: i64) -> Seq<CallSummary> {
    s.filter(|c: CallSummary| c.call.created_at_ms == at)
}

/// How many calls a listing for `limit` shows at most: `limit` brought into
/// `1..=500`.
pub open spec fn listing_cap(limit: i64) -> nat {
    if limit < 1 {
        1
    } else if limit > 500 {
        500
    } else {
        limit as nat
    }
}

/// The first `n` entries of `s`, or all of them where `s` is shorter.
pub open spec fn first_n<T>(s: Seq<T>, n: nat) -> Seq<T> {
    if s.len() <= n {
        s
    } else {
        s.take(n as int)
    }
}

proof fn lemma_insert_pos(r: Seq<CallSummary>, at: i64)
    requires
        is_newest_first(r),
    ensures
        insert_pos(r, at) <= r.len(),
        forall|k: int| 0 <= k < insert_pos(r, at) ==> #[trigger] r[k].call.created_at_ms >= at,
        forall|k: int| insert_pos(r, at) <= k < r.len() ==> #[trigger] r[k].call.created_at_ms < at,
    decreases r.len(),
{
    if r.len() > 0 && r[0].call.created_at_ms >= at {
        let t = r.drop_first();
        assert(is_newest_first(t)) by {
            assert forall|i: int, j: int| 0 <= i < j < t.len() implies t[j].call.created_at_ms
                <= t[i].call.created_at_ms by {
                assert(t[i] == r[i + 1] && t[j] == r[j + 1]);
            }
        }
        lemma_insert_pos(t, at);
        assert forall|k: int| 0 <= k < insert_pos(r, at) implies #[trigger] r[k].call.created_at_ms
            >= at by {
            if k > 0 {
                assert(r[k] == t[k - 1]);
            }
        }
        assert forall|k: int| insert_pos(r, at) <= k < r.len() implies #[trigger] r[k].call.created_at_ms
            < at by {
            assert(r[k] == t[k - 1]);
        }
    } else if r.len() > 0 {
        assert forall|k: int| 0 <= k < r.len() implies #[trigger] r[k].call.created_at_ms < at by {
            assert(r[k].call.created_at_ms <= r[0].call.created_at_ms || k == 0);
        }
    }
}

/// The listing is ordered newest first.
pub proof fn lemma_newest_first_sorted(s: Seq<CallSummary>)
    ensures
        is_newest_first(newest_first(s)),
        newest_first(s).len() == s.len(),
    decreases s.len(),
{
    if s.len() > 0 {
        let r = newest_first(s.drop_last());
        lemma_newest_first_sorted(s.drop_last());
        let x = s.last();
        lemma_insert_pos(r, x.call.created_at_ms);
        let p = insert_pos(r, x.call.created_at_ms) as int;
        let out = r.insert(p, x);
        assert forall|i: int, j: int| 0 <= i < j < out.len() implies out[j].call.created_at_ms
            <= out[i].call.created_at_ms by {
            if j < p {
                assert(out[i] == r[i] && out[j] == r[j]);
            } else if j == p {
                assert(out[i] == r[i]);
            } else if i < p {
                assert(out[i] == r[i] && out[j] == r[j - 1]);
            } else if i == p {
                assert(out[j] == r[j - 1]);
            } else {
                assert(out[i] == r[i - 1] && out[j] == r[j - 1]);
            }
        }
    }
}

/// Ordering keeps, for every moment, the calls created at that moment and
/// their order: the listing is a stable reordering of its input.
pub proof fn lemma_newest_first_stable(s: Seq<CallSummary>, at: i64)
    ensures
        created_at(newest_first(s), at) == created_at(s, at),
    decreases s.len(),
{
    let pred = |c: CallSummary| c.call.created_at_ms == at;
    if s.len() == 0 {
        assert(created_at(s, at) =~= Seq::<CallSummary>::empty());
    } else {
        let r = newest_first(s.drop_last());
        lemma_newest_first_stable(s.drop_last(), at);
        lemma_newest_first_sorted(s.drop_last());
        let x = s.last();
        lemma_insert_pos(r, x.call.created_at_ms);
        let p = insert_pos(r, x.call.created_at_ms) as int;
        let out = r.insert(p, x);
        assert(out =~= r.take(p) + seq![x] + r.skip(p));
        Seq::filter_distributes_over_add(r.take(p) + seq![x], r.skip(p), pred);
        Seq::filter_distributes_over_add(r.take(p), seq![x], pred);
        Seq::filter_distributes_over_add(r.take(p), r.skip(p), pred);
        assert(r =~= r.take(p) + r.skip(p));
        assert(s =~= s.drop_last() + seq![x]);
        Seq::filter_distributes_over_add(s.drop_last(), seq![x], pred);
        reveal_with_fuel(Seq::filter, 2);
        assert(seq![x].filter(pred) =~= if pred(x) { seq![x] } else { Seq::empty() }) by {
            assert(seq![x].drop_last() =~= Seq::<CallSummary>::empty());
        }
        if pred(x) {
            assert forall|k: int| 0 <= k < r.skip(p).len() implies (#[trigger] r.skip(p)[k]).call.created_at_ms
                != at by {
                assert(r.skip(p)[k] == r[p + k]);
            }
            lemma_none_created_at(r.skip(p), at);
        }
    }
}

proof fn lemma_none_created_at(t: Seq<CallSummary>, at: i64)
    requires
        forall|k: int| 0 <= k < t.len() ==> (#[trigger] t[k]).call.created_at_ms != at,
    ensures
        created_at(t, at) =~= Seq::<CallSummary>::empty(),
    decreases t.len(),
{
    if t.len() > 0 {
        assert forall|k: int| 0 <= k < t.drop_last().len() implies (#[trigger] t.drop_last()[k]).call.created_at_ms
            != at by {
            assert(t.drop_last()[k] == t[k]);
        }
        lemma_none_created_at(t.drop_last(), at);
        assert(t.last() == t[t.len() - 1]);
    }
    reveal_with_fuel(Seq::filter, 1);
}

/// Puts `x` into the listing `out` at its place.
fn insert_by_age(out: &mut Vec<CallSummary>, x: CallSummary)
    ensures
        final(out)@ == insert_newest_first(old(out)@, x),
{
    let at = x.call.created_at_ms;
    let mut p: usize = 0;
    assert(out@.subrange(0, out@.len() as int) =~= out@);
    while p < out.len() && out[p].call.created_at_ms >= at
        invariant
            p <= out@.len(),
            insert_pos(out@, at) == p + insert_pos(out@.subrange(p as int, out@.len() as int), at),
        decreases out@.len() - p,
    {
        proof {
            let rest = out@.subrange(p as int, out@.len() as int);
            assert(rest.drop_first() =~= out@.subrange(p + 1, out@.len() as int));
        }
        p = p + 1;
    }
    proof {
        if p < out@.len() {
            let rest = out@.subrange(p as int, out@.len() as int);
            assert(rest[0] == out@[p as int]);
        }
    }
    out.insert(p, x);
}

/// The calls of `calls`, newest first, those created at the same moment in
/// the order given.
pub fn sort_newest_first(calls: Vec<CallSummary>) -> (r: Vec<CallSummary>)
    ensures
        r@ == newest_first(calls@),
{
    let ghost all = calls@;
    let mut rest = calls;
    let mut out: Vec<CallSummary> = Vec::new();
    let ghost mut done: int = 0;
    while rest.len() > 0
        invariant
            0 <= done <= all.len(),
            rest@ == all.skip(done),
            out@ == newest_first(all.take(done)),
        decreases rest@.len(),
    {
        let x = rest.remove(0);
        proof {
            assert(all.take(done + 1).drop_last() =~= all.take(done));
            assert(all.take(done + 1).last() == x);
            assert(rest@ =~= all.skip(done + 1));
        }
        insert_by_age(&mut out, x);
        proof {
            done = done + 1;
        }
    }
    assert(all.take(done) =~= all);
    out
}

/// The listing of `calls` for `limit`: newest first, at most
/// `listing_cap(limit)` entries.
pub fn merge_calls(calls: Vec<CallSummary>, limit: i64) -> (r: Vec<CallSummary>)
    ensures
        r@ == first_n(newest_first(calls@), listing_cap(limit)),
{
    let mut sorted = sort_newest_first(calls);
    let cap: usize = if limit < 1 {
        1
    } else if limit > 500 {
        500
    } else {
        limit as usize
    };
    if sorted.len() > cap {
        sorted.truncate(cap);
    }
    sorted
}

/// A listing shows `listing_cap(limit)` calls, or all of them where there
/// are fewer.
pub proof fn lemma_listing_length(calls: Seq<CallSummary>, limit: i64)
    ensures
        first_n(newest_first(calls), listing_cap(limit)).len() == if calls.len() <= listing_cap(
            limit,
        ) {
            calls.len()
        } else {
            listing_cap(limit)
        },
        1 <= listing_cap(limit) <= 500,
{
    lemma_newest_first_sorted(calls);
}

/// A listing for a limit from 1 to 500 holds that many calls, or all of
/// them where there are fewer; a smaller limit lists one call, a larger one
/// 500.
pub proof fn lemma_listing_holds_limit(calls: Seq<CallSummary>, limit: i64)
    ensures
        1 <= limit <= 500 ==> first_n(newest_first(calls), listing_cap(limit)).len() == if calls.len()
            <= limit {
            calls.len() as int
        } else {
            limit as int
        },
        limit < 1 ==> first_n(newest_first(calls), listing_cap(limit)).len() == if calls.len()
            == 0 {
            0
        } else {
            1int
        },
        limit > 500 ==> first_n(newest_first(calls), listing_cap(limit)).len() == if calls.len()
            <= 500 {
            calls.len() as int
        } else {
            500
        },
{
    lemma_newest_first_sorted(calls);
}

/// The summary of a traced request carries the trace's own identity,
/// status, time, sizes and error: the call identifier is the prefix and the
/// request identifier, the run is the request, the conversation is the
/// trace's or else the request, the model is the trace's or else `Cursor`.
pub proof fn lemma_official_summary_fields(t: CursorRunTraceSummary, c: LlmCallSummary)
    requires
        is_official_summary(t, c),
    ensures
        c.status@ == t.status@,
        c.call_id@ == "cursor:"@ + t.request_id@,
        c.run_id@ == t.request_id@,
        t.conversation_id matches Some(id) ==> c.conversation_id@ == id@,
        t.conversation_id is None ==> c.conversation_id@ == t.request_id@,
        t.model_id matches Some(m) ==> c.model_id@ == m@ && c.display_name@ == m@,
        t.model_id is None ==> c.model_id@ == "Cursor"@ && c.display_name@ == "Cursor"@,
        c.created_at_ms == t.received_at_ms,
        c.finished_at_ms == t.finished_at_ms,
        c.request_bytes == Some(t.request_bytes),
        c.response_bytes == t.response_bytes,
        c.http_status == t.http_status,
        c.stream_event_count == t.response_event_count,
        text_view(c.error_message) == text_view(t.error_message),
        (c.error_kind is Some) == (t.error_message is Some),
        t.first_response_at_ms is Some <==> c.ttfb_ms is Some,
        t.finished_at_ms is Some <==> c.duration_ms is Some,
        t.first_response_at_ms matches Some(f) ==> (c.ttfb_ms matches Some(x) && x >= 0 && (f
            >= t.received_at_ms ==> x == f - t.received_at_ms)),
        t.finished_at_ms matches Some(f) ==> (c.duration_ms matches Some(x) && x >= 0 && (f
            >= t.received_at_ms ==> x == f - t.received_at_ms)),
{
}

/// `entries` lists first the calls of `llm`, then the traced requests of
/// `traces`, each as the listing shows it.
pub open spec fn is_listing_input(
    llm: Seq<LlmCallSummary>,
    traces: Seq<CursorRunTraceSummary>,
    entries: Seq<CallSummary>,
) -> bool {
    &&& entries.len() == llm.len() + traces.len()
    &&& forall|i: int|
        0 <= i < llm.len() ==> {
            &&& #[trigger] entries[i].call == llm[i]
            &&& entries[i].call_kind@ == "provider_llm"@
            &&& entries[i].route@ == "local_byok"@
        }
    &&& forall|j: int|
        0 <= j < traces.len() ==> {
            &&& is_official_summary(traces[j], #[trigger] entries[llm.len() + j].call)
            &&& entries[llm.len() + j].call_kind@ == "cursor_official"@
            &&& entries[llm.len() + j].route@ == "cursor_official"@
        }
}

/// The listing shows only calls of its input.
pub proof fn lemma_newest_first_members(s: Seq<CallSummary>)
    ensures
        forall|k: int|
            0 <= k < newest_first(s).len() ==> s.contains(#[trigger] newest_first(s)[k]),
    decreases s.len(),
{
    if s.len() > 0 {
        let prev = s.drop_last();
        lemma_newest_first_members(prev);
        lemma_newest_first_sorted(prev);
        let r = newest_first(prev);
        let x = s.last();
        lemma_insert_pos(r, x.call.created_at_ms);
        let p = insert_pos(r, x.call.created_at_ms) as int;
        assert forall|k: int| 0 <= k < newest_first(s).len() implies s.contains(
            #[trigger] newest_first(s)[k],
        ) by {
            let y = newest_first(s)[k];
            if k == p {
                assert(s[s.len() - 1] == y);
            } else {
                let q = if k < p {
                    k
                } else {
                    k - 1
                };
                assert(y == r[q]);
                assert(prev.contains(y));
                let i = choose|i: int| 0 <= i < prev.len() && prev[i] == y;
                assert(s[i] == y);
            }
        }
    }
}

/// Every traced request that a listing shows can be opened again: the call
/// identifier that the listing gives it names the trace that it shows.
pub proof fn lemma_listed_official_calls_name_their_traces(
    llm: Seq<LlmCallSummary>,
    traces: Seq<CursorRunTraceSummary>,
    entries: Seq<CallSummary>,
    limit: i64,
    k: int,
)
    requires
        is_listing_input(llm, traces, entries),
        0 <= k < first_n(newest_first(entries), listing_cap(limit)).len(),
        first_n(newest_first(entries), listing_cap(limit))[k].call_kind@ == "cursor_official"@,
    ensures
        exists|j: int|
            0 <= j < traces.len() && is_official_summary(
                traces[j],
                first_n(newest_first(entries), listing_cap(limit))[k].call,
            ) && request_id_of_call(
                first_n(newest_first(entries), listing_cap(limit))[k].call.call_id@,
            ) == traces[j].request_id@,
{
    let listed = first_n(newest_first(entries), listing_cap(limit));
    let c = listed[k];
    lemma_newest_first_members(entries);
    assert(c == newest_first(entries)[k]);
    assert(entries.contains(c));
    let i = choose|i: int| 0 <= i < entries.len() && entries[i] == c;
    reveal_strlit("cursor_official");
    reveal_strlit("provider_llm");
    if i < llm.len() {
        assert(entries[i].call == llm[i]);
        assert(entries[i].call_kind@ == "provider_llm"@);
        assert("provider_llm"@ != "cursor_official"@) by {
            assert("provider_llm"@[0] != "cursor_official"@[0]);
        }
    } else {
        let j = i - llm.len();
        assert(entries[llm.len() + j] == c);
        lemma_official_call_names_its_trace(traces[j], c);
    }
}

/// The entries of a listing: the provider calls, then the traced requests.
pub fn listing_entries(llm: Vec<LlmCallSummary>, traces: Vec<CursorRunTraceSummary>) -> (r: Vec<
    CallSummary,
>)
    requires
        forall|j: int| 0 <= j < traces@.len() ==> trace_times_fit(#[trigger] traces@[j]),
    ensures
        is_listing_input(llm@, traces@, r@),
{
    let ghost llm0 = llm@;
    let ghost traces0 = traces@;
    let mut out: Vec<CallSummary> = Vec::new();
    let mut llm = llm;
    let ghost mut i: int = 0;
    while llm.len() > 0
        invariant
            0 <= i <= llm0.len(),
            llm@ == llm0.skip(i),
            out@.len() == i,
            forall|k: int|
                0 <= k < i ==> {
                    &&& #[trigger] out@[k].call == llm0[k]
                    &&& out@[k].call_kind@ == "provider_llm"@
                    &&& out@[k].route@ == "local_byok"@
                },
        decreases llm@.len(),
    {
        let c = llm.remove(0);
        assert(c == llm0[i]);
        out.push(provider_call(c));
        proof {
            assert(llm@ =~= llm0.skip(i + 1));
            i = i + 1;
        }
    }
    let mut traces = traces;
    let ghost mut j: int = 0;
    while traces.len() > 0
        invariant
            0 <= j <= traces0.len(),
            traces@ == traces0.skip(j),
            i == llm0.len(),
            out@.len() == i + j,
            forall|k: int| 0 <= k < traces0.len() ==> trace_times_fit(#[trigger] traces0[k]),
            forall|k: int|
                0 <= k < i ==> {
                    &&& #[trigger] out@[k].call == llm0[k]
                    &&& out@[k].call_kind@ == "provider_llm"@
                    &&& out@[k].route@ == "local_byok"@
                },
            forall|k: int|
                0 <= k < j ==> {
                    &&& is_official_summary(traces0[k], #[trigger] out@[i + k].call)
                    &&& out@[i + k].call_kind@ == "cursor_official"@
                    &&& out@[i + k].route@ == "cursor_official"@
                },
        decreases traces@.len(),
    {
        let t = traces.remove(0);
        assert(t == traces0[j]);
        out.push(official_call(t));
        proof {
            assert(traces@ =~= traces0.skip(j + 1));
            j = j + 1;
        }
    }
    out
}

/// The call listing for `limit`, built from the provider calls and the
/// traced requests that the store gave back.
pub fn calls_listing(llm: Vec<LlmCallSummary>, traces: Vec<CursorRunTraceSummary>, limit: i64) -> (r:
    Vec<CallSummary>)
    requires
        forall|j: int| 0 <= j < traces@.len() ==> trace_times_fit(#[trigger] traces@[j]),
    ensures
        exists|entries: Seq<CallSummary>|
            is_listing_input(llm@, traces@, entries) && r@ == first_n(
                newest_first(entries),
                listing_cap(limit),
            ),
{
    let entries = listing_entries(llm, traces);
    let ghost e = entries@;
    let r = merge_calls(entries, limit);
    assert(is_listing_input(llm@, traces@, e));
    r
}


// ---------------------------------------------------------------------------
// Looking up one call
// ---------------------------------------------------------------------------

/// The request identifier named by a call identifier: the identifier
/// without the official prefix, or the whole identifier where it has none.
pub open spec fn request_id_of_call(call_id: Seq<char>) -> Seq<char> {
    let n = official_prefix().len() as int;
    if call_id.len() >= n && call_id.take(n) == official_prefix() {
        call_id.skip(n)
    } else {
        call_id
    }
}

/// The identifier that the listing gives a traced request names that request
/// again.
pub proof fn lemma_official_call_id_round_trip(request_id: Seq<char>)
    ensures
        request_id_of_call(official_prefix() + request_id) == request_id,
{
    let p = official_prefix();
    assert((p + request_id).take(p.len() as int) =~= p);
    assert((p + request_id).skip(p.len() as int) =~= request_id);
}

/// The listing entry of a traced request carries an identifier that names
/// the request again.
pub proof fn lemma_official_call_names_its_trace(t: CursorRunTraceSummary, c: CallSummary)
    requires
        is_official_summary(t, c.call),
    ensures
        request_id_of_call(c.call.call_id@) == t.request_id@,
{
    lemma_official_call_id_round_trip(t.request_id@);
}

/// The request identifier named by `call_id` (`strip_prefix("cursor:")`).
pub fn official_request_id(call_id: &str) -> (r: String)
    ensures
        r@ == request_id_of_call(call_id@),
{
    proof {
        reveal_strlit("cursor:");
    }
    let chars = chars_of(call_id);
    let prefix = chars_of("cursor:");
    let n = prefix.len();
    if chars.len() < n {
        return String::from_str(call_id);
    }
    let mut i: usize = 0;
    while i < n
        invariant
            chars@ == call_id@,
            prefix@ == official_prefix(),
            n == prefix@.len(),
            n <= chars@.len(),
            i <= n,
            forall|k: int| 0 <= k < i ==> chars@[k] == prefix@[k],
        decreases n - i,
    {
        if chars[i] != prefix[i] {
            proof {
                assert(call_id@.take(n as int)[i as int] != official_prefix()[i as int]);
            }
            return String::from_str(call_id);
        }
        i = i + 1;
    }
    assert(call_id@.take(n as int) =~= official_prefix());
    String::from_str(call_id.substring_char(n, chars.len()))
}

/// The trace that a call identifier without a provider call names, if it is
/// a trace of the vendor's own route.
pub fn official_trace_for_call(trace: Option<CursorRunTraceSummary>, call_id: &str) -> (r: Result<
    CursorRunTraceSummary,
    Error,
>)
    ensures
        match trace {
            Some(t) => if t.route@ == "cursor_official"@ {
                r == Ok::<CursorRunTraceSummary, Error>(t)
            } else {
                r matches Err(Error::RunNotFound(m)) && m@ == "call "@ + call_id@
            },
            None => r matches Err(Error::RunNotFound(m)) && m@ == "call "@ + call_id@,
        },
{
    match trace {
        Some(t) => {
            if same_text(t.route.as_str(), "cursor_official") {
                Ok(t)
            } else {
                Err(Error::RunNotFound(join2("call ", call_id)))
            }
        },
        None => Err(Error::RunNotFound(join2("call ", call_id))),
    }
}

// ---------------------------------------------------------------------------
// Trace artifacts
// ---------------------------------------------------------------------------

/// A stored artifact as the detail view shows it: its bytes as text where
/// they are readable, else in standard base64.
pub struct CursorTraceArtifactDetail {
    pub seq: i64,
    pub artifact_type: String,
    pub source: String,
    pub metadata: Json,
    pub created_at_ms: i64,
    pub byte_count: usize,
    pub encoding: &'static str,
    pub data: String,
}

/// A traced request with its artifacts.
pub struct CursorTraceDetail {
    pub trace: CursorRunTraceSummary,
    pub artifacts: Vec<CursorTraceArtifactDetail>,
}

/// Everything known of one call: its listing entry, the request and the
/// streamed answer where the service recorded them, and the trace where the
/// call went through the vendor's route.
pub struct CallDetail<Req, Chunk> {
    pub call: CallSummary,
    pub request: Option<Req>,
    pub response_chunks: Vec<Chunk>,
    pub cursor_trace: Option<CursorTraceDetail>,
}

/// `base64::engine::general_purpose::STANDARD.encode`: the standard
/// alphabet of RFC 4648 with `=` padding, as `base64_encode` spells it out.
#[verifier::external_body]
fn encode_base64(data: &[u8]) -> (r: String)
    ensures
        r@ == base64_encode(data@),
{
    base64::Engine::encode(&base64::engine::general_purpose::STANDARD, data)
}

/// `std::str::from_utf8`: text exactly when the bytes are well-formed UTF-8,
/// and then the characters that they encode.
#[verifier::external_body]
fn utf8_text(data: &[u8]) -> (r: Option<&str>)
    ensures
        r is Some == valid_utf8(data@),
        r matches Some(s) ==> s@ == decode_utf8(data@),
{
    std::str::from_utf8(data).ok()
}

/// A character that readable text may hold: no control character but line
/// feed, carriage return and tab.
pub open spec fn is_readable_char(c: char) -> bool {
    !is_control_char(c) || c == '\n' || c == '\r' || c == '\t'
}

/// The text of `data` where it is UTF-8 made of readable characters only.
pub open spec fn readable_text(data: Seq<u8>) -> Option<Seq<char>> {
    if valid_utf8(data) && forall|i: int|
        0 <= i < decode_utf8(data).len() ==> is_readable_char(#[trigger] decode_utf8(data)[i]) {
        Some(decode_utf8(data))
    } else {
        None
    }
}

/// The text of `data`, where it is readable.
pub fn readable_utf8(data: &[u8]) -> (r: Option<&str>)
    ensures
        r is Some == readable_text(data@) is Some,
        r matches Some(s) ==> readable_text(data@) == Some(s@),
{
    let text = match utf8_text(data) {
        Some(t) => t,
        None => return None,
    };
    let chars = chars_of(text);
    let mut i: usize = 0;
    while i < chars.len()
        invariant
            chars@ == decode_utf8(data@),
            i <= chars@.len(),
            forall|k: int| 0 <= k < i ==> is_readable_char(#[trigger] chars@[k]),
        decreases chars@.len() - i,
    {
        let c = chars[i];
        if control_char(c) && c != '\n' && c != '\r' && c != '\t' {
            return None;
        }
        i = i + 1;
    }
    Some(text)
}

/// Text is readable exactly when it is UTF-8 with no control character
/// other than line feed, carriage return and tab.
pub proof fn lemma_readable_text(data: Seq<u8>)
    ensures
        readable_text(data) is Some ==> valid_utf8(data) && readable_text(data) == Some(
            decode_utf8(data),
        ),
        readable_text(data) is Some <==> valid_utf8(data) && forall|i: int|
            0 <= i < decode_utf8(data).len() ==> (!is_control_char(#[trigger] decode_utf8(data)[i])
                || decode_utf8(data)[i] == '\n' || decode_utf8(data)[i] == '\r'
                || decode_utf8(data)[i] == '\t'),
{
}

/// `d` shows the artifact `a`.
pub open spec fn is_artifact_detail(a: CursorRunTraceArtifact, d: CursorTraceArtifactDetail) -> bool {
    &&& d.seq == a.seq
    &&& d.artifact_type == a.artifact_type
    &&& d.source == a.source
    &&& d.metadata == a.metadata
    &&& d.created_at_ms == a.created_at_ms
    &&& d.byte_count == a.data@.len()
    &&& match readable_text(a.data@) {
        Some(t) => d.encoding@ == "utf8"@ && d.data@ == t,
        None => d.encoding@ == "base64"@ && d.data@ == base64_encode(a.data@),
    }
}

/// The bytes of an artifact can be had back from its detail view: the
/// encoding of the text where it was shown as text, the decoding of the
/// base64 text otherwise; it is shown as text exactly when it is readable.
pub proof fn lemma_artifact_data_recoverable(a: CursorRunTraceArtifact, d: CursorTraceArtifactDetail)
    requires
        is_artifact_detail(a, d),
    ensures
        (d.encoding@ == "utf8"@) == (readable_text(a.data@) is Some),
        d.encoding@ == "utf8"@ ==> encode_utf8(d.data@) == a.data@,
        d.encoding@ == "base64"@ ==> base64_decode(d.data@) == Some(a.data@),
        d.encoding@ == "utf8"@ || d.encoding@ == "base64"@,
{
    reveal_strlit("utf8");
    reveal_strlit("base64");
    assert("utf8"@ != "base64"@) by {
        assert("utf8"@.len() != "base64"@.len());
    }
    if readable_text(a.data@) is Some {
        vstd::utf8::decode_utf8_encode_utf8(a.data@);
    } else {
        lemma_base64_round_trip(a.data@);
    }
}

/// The detail view of one stored artifact.
pub fn cursor_artifact(artifact: CursorRunTraceArtifact) -> (d: CursorTraceArtifactDetail)
    ensures
        is_artifact_detail(artifact, d),
{
    let byte_count = artifact.data.len();
    let (encoding, data) = match readable_utf8(artifact.data.as_slice()) {
        Some(value) => ("utf8", String::from_str(value)),
        None => ("base64", encode_base64(artifact.data.as_slice())),
    };
    CursorTraceArtifactDetail {
        seq: artifact.seq,
        artifact_type: artifact.artifact_type,
        source: artifact.source,
        metadata: artifact.metadata,
        created_at_ms: artifact.created_at_ms,
        byte_count,
        encoding,
        data,
    }
}

/// A traced request with the detail view of each of its artifacts, in order.
pub fn cursor_trace_detail_from(
    trace: CursorRunTraceSummary,
    artifacts: Vec<CursorRunTraceArtifact>,
) -> (d: CursorTraceDetail)
    ensures
        d.trace == trace,
        d.artifacts@.len() == artifacts@.len(),
        forall|i: int|
            0 <= i < artifacts@.len() ==> is_artifact_detail(
                artifacts@[i],
                #[trigger] d.artifacts@[i],
            ),
{
    let ghost all = artifacts@;
    let mut rest = artifacts;
    let mut out: Vec<CursorTraceArtifactDetail> = Vec::new();
    let ghost mut i: int = 0;
    while rest.len() > 0
        invariant
            0 <= i <= all.len(),
            rest@ == all.skip(i),
            out@.len() == i,
            forall|k: int| 0 <= k < i ==> is_artifact_detail(all[k], #[trigger] out@[k]),
        decreases rest@.len(),
    {
        let a = rest.remove(0);
        assert(a == all[i]);
        out.push(cursor_artifact(a));
        proof {
            assert(rest@ =~= all.skip(i + 1));
            i = i + 1;
        }
    }
    CursorTraceDetail { trace, artifacts: out }
}

/// The detail of a call made through a configured provider: its listing
/// entry, what the store recorded of it, and the trace of its run, if any.
pub fn provider_call_detail<Req, Chunk>(
    call: LlmCallSummary,
    request: Option<Req>,
    response_chunks: Vec<Chunk>,
    cursor_trace: Option<CursorTraceDetail>,
) -> (d: CallDetail<Req, Chunk>)
    ensures
        d.call.call == call,
        d.call.call_kind@ == "provider_llm"@,
        d.call.route@ == "local_byok"@,
        d.request == request,
        d.response_chunks == response_chunks,
        d.cursor_trace == cursor_trace,
{
    CallDetail { call: provider_call(call), request, response_chunks, cursor_trace }
}

/// A copy of a trace summary.
pub fn copy_trace(t: &CursorRunTraceSummary) -> (r: CursorRunTraceSummary)
    ensures
        r == *t,
{
    CursorRunTraceSummary {
        request_id: t.request_id.clone(),
        conversation_id: copy_text(&t.conversation_id),
        model_id: copy_text(&t.model_id),
        route: t.route.clone(),
        status: t.status.clone(),
        received_at_ms: t.received_at_ms,
        first_response_at_ms: t.first_response_at_ms,
        finished_at_ms: t.finished_at_ms,
        request_bytes: t.request_bytes,
        response_bytes: t.response_bytes,
        response_event_count: t.response_event_count,
        http_status: t.http_status,
        error_message: copy_text(&t.error_message),
    }
}

/// The detail of a call that only the vendor's route traced: its listing
/// entry and its trace, with no recorded request or answer.
pub fn official_call_detail<Req, Chunk>(
    trace: CursorRunTraceSummary,
    artifacts: Vec<CursorRunTraceArtifact>,
) -> (d: CallDetail<Req, Chunk>)
    requires
        trace_times_fit(trace),
    ensures
        is_official_summary(trace, d.call.call),
        d.call.call_kind@ == "cursor_official"@,
        d.call.route@ == "cursor_official"@,
        d.request is None,
        d.response_chunks@.len() == 0,
        d.cursor_trace matches Some(detail) && detail.trace == trace && detail.artifacts@.len()
            == artifacts@.len() && forall|i: int|
            0 <= i < artifacts@.len() ==> is_artifact_detail(
                artifacts@[i],
                #[trigger] detail.artifacts@[i],
            ),
{
    let call = official_call(copy_trace(&trace));
    let detail = cursor_trace_detail_from(trace, artifacts);
    CallDetail { call, request: None, response_chunks: Vec::new(), cursor_trace: Some(detail) }
}

} // verus!
