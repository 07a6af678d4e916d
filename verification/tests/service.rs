use server::calls::{
    calls_listing, cursor_artifact, cursor_trace_detail_from, merge_calls, official_call,
    official_call_detail, official_request_id, official_trace_for_call, provider_call,
    provider_call_detail, readable_utf8, sort_newest_first, CallDetail, CallSummary,
};
use server::connectivity::{
    clamp_millis, clamp_millis_signed, connectivity_prompt, connectivity_request,
    connectivity_test_id, connectivity_timeout_error, connectivity_timeout_record,
    connectivity_timeout_secs, finish_probe, reasoning_effort, ConnectivityProbe, ProbeEvent,
};
use server::discovery::{
    anthropic_models_request, anthropic_next_page, api_key_or_empty, custom_headers,
    discovered_models, discovery_failure, lists_models_paged, model_ids, openai_models_request,
    page_model_ids, ProviderType,
};
use server::json::{same_text, Json};
use server::model::{CursorRunTraceArtifact, CursorRunTraceSummary, Error, LlmCallSummary};
use server::order::{sort_unique, text_before};
use server::service::{
    ad_dismissal_url, disabled_ads_header, found_or_missing, stored_provider, upstream_failure,
    ControlService, ObservabilitySettings,
};
use server::text::{
    estimate_output_tokens, first_chars, signed_decimal, trim_text, unsigned_decimal,
};

fn text(s: &str) -> Json {
    Json::Str(s.to_string())
}

fn object(members: Vec<(&str, Json)>) -> Json {
    Json::Object(members.into_iter().map(|(k, v)| (k.to_string(), v)).collect())
}

fn message(e: &Error) -> String {
    match e {
        Error::Provider(m) | Error::Config(m) | Error::RunNotFound(m) | Error::Protocol(m) => {
            m.clone()
        }
    }
}

fn llm_call(id: &str, created_at_ms: i64) -> LlmCallSummary {
    LlmCallSummary {
        call_id: id.to_string(),
        run_id: format!("run-{id}"),
        conversation_id: format!("conv-{id}"),
        provider_call_index: 1,
        model_hash: Some("hash".to_string()),
        provider_type: "openai-chat".to_string(),
        provider_url: "https://example.com/v1".to_string(),
        request_type: "chat".to_string(),
        request_url: "https://example.com/v1/chat/completions".to_string(),
        model_id: "model".to_string(),
        display_name: "Model".to_string(),
        reasoning_effort: None,
        fast: None,
        status: "ok".to_string(),
        finish_reason: Some("stop".to_string()),
        created_at_ms,
        request_started_at_ms: Some(created_at_ms),
        response_headers_at_ms: None,
        first_event_at_ms: None,
        first_text_at_ms: None,
        finished_at_ms: None,
        queue_ms: None,
        ttfb_ms: None,
        ttft_ms: None,
        duration_ms: None,
        input_tokens: Some(10),
        output_tokens: Some(20),
        total_tokens: Some(30),
        cache_read_tokens: None,
        cache_write_tokens: None,
        reasoning_tokens: None,
        usage: None,
        message_count: 2,
        tool_count: 0,
        request_bytes: Some(100),
        response_bytes: Some(200),
        stream_event_count: 5,
        http_status: Some(200),
        error_kind: None,
        error_message: None,
        detailed: false,
    }
}

fn trace(request_id: &str, received_at_ms: i64) -> CursorRunTraceSummary {
    CursorRunTraceSummary {
        request_id: request_id.to_string(),
        conversation_id: None,
        model_id: None,
        route: "cursor_official".to_string(),
        status: "completed".to_string(),
        received_at_ms,
        first_response_at_ms: Some(received_at_ms + 120),
        finished_at_ms: Some(received_at_ms - 5),
        request_bytes: 512,
        response_bytes: Some(2048),
        response_event_count: 7,
        http_status: Some(200),
        error_message: None,
    }
}

fn ids(calls: &[CallSummary]) -> Vec<String> {
    calls.iter().map(|c| c.call.call_id.clone()).collect()
}

// ---------------------------------------------------------------------------
// Token estimates and text
// ---------------------------------------------------------------------------

#[test]
fn connectivity_output_token_estimate_handles_words_and_empty_text() {
    assert_eq!(estimate_output_tokens("1 2 3"), 3);
    assert_eq!(estimate_output_tokens(""), 0);
}

#[test]
fn token_estimate_of_blank_text_is_a_quarter_of_its_characters() {
    assert_eq!(estimate_output_tokens(" "), 1);
    assert_eq!(estimate_output_tokens("    "), 1);
    assert_eq!(estimate_output_tokens("     "), 2);
    assert_eq!(estimate_output_tokens("\n\t \u{3000}"), 1);
}

#[test]
fn token_estimate_counts_runs_of_words() {
    assert_eq!(estimate_output_tokens("  one\u{a0}two\n\nthree  "), 3);
    assert_eq!(estimate_output_tokens("word"), 1);
}

#[test]
fn trimming_strips_unicode_whitespace_at_both_ends() {
    assert_eq!(trim_text("  \u{2003}hello world\t\n"), "hello world");
    assert_eq!(trim_text(" \n "), "");
    assert_eq!(trim_text("x"), "x");
}

#[test]
fn first_chars_counts_characters_not_bytes() {
    assert_eq!(first_chars("héllo", 2), "hé");
    assert_eq!(first_chars("ab", 200), "ab");
}

#[test]
fn texts_compare_by_code_point() {
    assert!(text_before("a", "b"));
    assert!(text_before("ab", "abc"));
    assert!(!text_before("abc", "ab"));
    assert!(text_before("Z", "a"));
    assert!(!text_before("same", "same"));
    assert!(same_text("same", "same"));
    assert!(!same_text("same", "sane"));
}

// ---------------------------------------------------------------------------
// Call listing
// ---------------------------------------------------------------------------

#[test]
fn official_call_fills_in_the_vendor_route() {
    let c = official_call(trace("req-1", 1000));
    assert_eq!(c.call_kind, "cursor_official");
    assert_eq!(c.route, "cursor_official");
    assert_eq!(c.call.call_id, "cursor:req-1");
    assert_eq!(c.call.run_id, "req-1");
    assert_eq!(c.call.conversation_id, "req-1");
    assert_eq!(c.call.model_id, "Cursor");
    assert_eq!(c.call.display_name, "Cursor");
    assert_eq!(c.call.provider_type, "cursor-official");
    assert_eq!(c.call.provider_url, "https://api2.cursor.sh");
    assert_eq!(c.call.request_type, "cursor-run-sse");
    assert_eq!(
        c.call.request_url,
        "https://api2.cursor.sh/agent.v1.AgentService/RunSSE"
    );
    assert_eq!(c.call.ttfb_ms, Some(120));
    assert_eq!(c.call.duration_ms, Some(0));
    assert_eq!(c.call.request_bytes, Some(512));
    assert_eq!(c.call.request_started_at_ms, Some(1000));
    assert_eq!(c.call.created_at_ms, 1000);
    assert_eq!(c.call.error_kind, None);
    assert!(c.call.detailed);
}

#[test]
fn official_call_keeps_the_model_conversation_and_error() {
    let mut t = trace("req-2", 50);
    t.model_id = Some("gpt-x".to_string());
    t.conversation_id = Some("conv".to_string());
    t.error_message = Some("boom".to_string());
    t.first_response_at_ms = None;
    let c = official_call(t);
    assert_eq!(c.call.model_id, "gpt-x");
    assert_eq!(c.call.display_name, "gpt-x");
    assert_eq!(c.call.conversation_id, "conv");
    assert_eq!(c.call.error_kind.as_deref(), Some("cursor_official"));
    assert_eq!(c.call.error_message.as_deref(), Some("boom"));
    assert_eq!(c.call.ttfb_ms, None);
}

#[test]
fn provider_calls_are_listed_on_the_local_route() {
    let c = provider_call(llm_call("a", 5));
    assert_eq!(c.call_kind, "provider_llm");
    assert_eq!(c.route, "local_byok");
    assert_eq!(c.call.call_id, "a");
}

#[test]
fn listing_is_newest_first_and_stable() {
    let calls = vec![
        provider_call(llm_call("a", 10)),
        provider_call(llm_call("b", 30)),
        provider_call(llm_call("c", 10)),
        provider_call(llm_call("d", 20)),
        provider_call(llm_call("e", 30)),
    ];
    let sorted = sort_newest_first(calls);
    assert_eq!(ids(&sorted), vec!["b", "e", "d", "a", "c"]);
}

#[test]
fn listing_is_capped_between_one_and_five_hundred() {
    let make = |n: i64| -> Vec<CallSummary> {
        (0..n).map(|i| provider_call(llm_call(&format!("c{i}"), i))).collect()
    };
    assert_eq!(merge_calls(make(5), 0).len(), 1);
    assert_eq!(merge_calls(make(5), -7).len(), 1);
    assert_eq!(merge_calls(make(5), 3).len(), 3);
    assert_eq!(merge_calls(make(5), 10).len(), 5);
    assert_eq!(merge_calls(make(600), 1000).len(), 500);
    assert_eq!(ids(&merge_calls(make(5), 2)), vec!["c4", "c3"]);
}

#[test]
fn listing_merges_provider_calls_and_traces() {
    let listing = calls_listing(
        vec![llm_call("a", 100), llm_call("b", 300)],
        vec![trace("t1", 200), trace("t2", 300)],
        10,
    );
    assert_eq!(ids(&listing), vec!["b", "cursor:t2", "cursor:t1", "a"]);
    assert_eq!(listing[1].route, "cursor_official");
    assert_eq!(listing[0].route, "local_byok");
}

#[test]
fn call_identifiers_of_traces_name_the_trace_again() {
    let c = official_call(trace("req-9", 7));
    assert_eq!(official_request_id(&c.call.call_id), "req-9");
    assert_eq!(official_request_id("plain-id"), "plain-id");
    assert_eq!(official_request_id("cursor"), "cursor");
    assert_eq!(official_request_id("cursor:"), "");
}

#[test]
fn only_traces_of_the_vendor_route_are_shown() {
    let found = official_trace_for_call(Some(trace("r", 1)), "cursor:r").ok().unwrap();
    assert_eq!(found.request_id, "r");
    let mut other = trace("r", 1);
    other.route = "local_byok".to_string();
    let err = official_trace_for_call(Some(other), "cursor:r").err().unwrap();
    assert!(matches!(err, Error::RunNotFound(_)));
    assert_eq!(message(&err), "call cursor:r");
    let err = official_trace_for_call(None, "x").err().unwrap();
    assert_eq!(message(&err), "call x");
}

// ---------------------------------------------------------------------------
// Artifacts
// ---------------------------------------------------------------------------

fn artifact(data: Vec<u8>) -> CursorRunTraceArtifact {
    CursorRunTraceArtifact {
        seq: 3,
        artifact_type: "request".to_string(),
        source: "client".to_string(),
        metadata: object(vec![("k", text("v"))]),
        created_at_ms: 99,
        data,
    }
}

#[test]
fn readable_text_keeps_line_breaks_and_tabs() {
    assert_eq!(readable_utf8(b"a\nb\r\tc"), Some("a\nb\r\tc"));
    assert_eq!(readable_utf8("héllo".as_bytes()), Some("héllo"));
    assert_eq!(readable_utf8(b""), Some(""));
}

#[test]
fn control_characters_and_invalid_utf8_are_not_readable() {
    assert_eq!(readable_utf8(b"a\x00b"), None);
    assert_eq!(readable_utf8(b"\x7f"), None);
    assert_eq!(readable_utf8("\u{85}".as_bytes()), None);
    assert_eq!(readable_utf8(&[0xff, 0xfe]), None);
    assert_eq!(readable_utf8(&[0xc0, 0x80]), None);
}

#[test]
fn readable_artifacts_are_shown_as_text() {
    let d = cursor_artifact(artifact(b"hello".to_vec()));
    assert_eq!(d.encoding, "utf8");
    assert_eq!(d.data, "hello");
    assert_eq!(d.byte_count, 5);
    assert_eq!(d.seq, 3);
    assert_eq!(d.created_at_ms, 99);
    assert_eq!(d.artifact_type, "request");
    assert_eq!(d.source, "client");
}

#[test]
fn binary_artifacts_are_shown_in_base64() {
    let d = cursor_artifact(artifact(vec![0xff, 0x00, 0x10]));
    assert_eq!(d.encoding, "base64");
    assert_eq!(d.data, "/wAQ");
    assert_eq!(d.byte_count, 3);
    let d = cursor_artifact(artifact(vec![0x00, 0xff, 0x10, 0x80, 0x81]));
    assert_eq!(d.data, "AP8QgIE=");
    let d = cursor_artifact(artifact(vec![0xff, 0xfe]));
    assert_eq!(d.data, "//4=");
    let d = cursor_artifact(artifact(vec![0x01]));
    assert_eq!(d.encoding, "base64");
    assert_eq!(d.data, "AQ==");
}

#[test]
fn trace_detail_keeps_artifacts_in_order() {
    let d = cursor_trace_detail_from(
        trace("r", 1),
        vec![artifact(b"one".to_vec()), artifact(vec![0x80])],
    );
    assert_eq!(d.trace.request_id, "r");
    assert_eq!(d.artifacts.len(), 2);
    assert_eq!(d.artifacts[0].data, "one");
    assert_eq!(d.artifacts[1].data, "gA==");
}

#[test]
fn official_call_detail_has_no_request_or_chunks() {
    let d: CallDetail<String, String> =
        official_call_detail(trace("r", 1), vec![artifact(b"x".to_vec())]);
    assert!(d.request.is_none());
    assert!(d.response_chunks.is_empty());
    assert_eq!(d.call.call.call_id, "cursor:r");
    assert_eq!(d.cursor_trace.unwrap().artifacts[0].data, "x");
}

// ---------------------------------------------------------------------------
// Model discovery
// ---------------------------------------------------------------------------

#[test]
fn model_ids_read_strings_ids_and_names() {
    let listing = Json::Array(vec![
        text("plain"),
        object(vec![("id", text("by-id")), ("name", text("ignored"))]),
        object(vec![("name", text("by-name"))]),
        object(vec![("id", Json::Number("5".to_string())), ("name", text("not-used"))]),
        Json::Null,
        Json::Bool(true),
    ]);
    assert_eq!(model_ids(&listing), vec!["plain", "by-id", "by-name"]);
    assert!(model_ids(&text("x")).is_empty());
}

#[test]
fn listing_pages_read_their_data_member() {
    let page = object(vec![("data", Json::Array(vec![text("a"), text("b")]))]);
    assert_eq!(page_model_ids(&page), vec!["a", "b"]);
    let bare = Json::Array(vec![text("c")]);
    assert_eq!(page_model_ids(&bare), vec!["c"]);
}

#[test]
fn discovered_models_are_sorted_and_unique() {
    let d = discovered_models(vec![
        "b".to_string(),
        "a".to_string(),
        "b".to_string(),
        "C".to_string(),
        "a".to_string(),
    ]);
    assert_eq!(d.models, vec!["C", "a", "b"]);
    let s = sort_unique(vec!["gpt-4o".to_string(), "gpt-4".to_string()]);
    assert_eq!(s, vec!["gpt-4", "gpt-4o"]);
}

#[test]
fn openai_listing_request_uses_a_bearer_token_when_a_key_is_set() {
    let r = openai_models_request("https://api.example.com/v1", "sk-1");
    assert_eq!(r.url, "https://api.example.com/v1/models");
    assert_eq!(r.bearer_token.as_deref(), Some("sk-1"));
    assert!(r.headers.is_empty() && r.query.is_empty());
    let r = openai_models_request("https://api.example.com/v1", "");
    assert_eq!(r.bearer_token, None);
}

#[test]
fn anthropic_listing_request_pages_with_the_api_version() {
    let r = anthropic_models_request("https://api.anthropic.com/v1", "key", Some("m-9"));
    assert_eq!(r.url, "https://api.anthropic.com/v1/models");
    assert_eq!(
        r.query,
        vec![
            ("limit".to_string(), "100".to_string()),
            ("after_id".to_string(), "m-9".to_string())
        ]
    );
    assert_eq!(
        r.headers,
        vec![
            ("anthropic-version".to_string(), "2023-06-01".to_string()),
            ("x-api-key".to_string(), "key".to_string())
        ]
    );
    assert_eq!(r.bearer_token, None);
    let r = anthropic_models_request("u", "", None);
    assert_eq!(r.query.len(), 1);
    assert_eq!(r.headers.len(), 1);
}

#[test]
fn anthropic_paging_follows_has_more_and_last_id() {
    let last = object(vec![("has_more", Json::Bool(false)), ("last_id", text("x"))]);
    assert!(matches!(anthropic_next_page(&last), Ok(None)));
    let missing = object(vec![]);
    assert!(matches!(anthropic_next_page(&missing), Ok(None)));
    let more = object(vec![("has_more", Json::Bool(true)), ("last_id", text("m-2"))]);
    assert_eq!(anthropic_next_page(&more).ok().unwrap().as_deref(), Some("m-2"));
    let broken = object(vec![("has_more", Json::Bool(true))]);
    let err = anthropic_next_page(&broken).err().unwrap();
    assert!(matches!(err, Error::Provider(_)));
    assert_eq!(
        message(&err),
        "Anthropic model response has_more without last_id"
    );
}

#[test]
fn provider_types_choose_the_listing_protocol() {
    assert!(lists_models_paged(&ProviderType::Anthropic));
    assert!(!lists_models_paged(&ProviderType::OpenAiChat));
    assert!(!lists_models_paged(&ProviderType::OpenAiResponses));
    assert_eq!(api_key_or_empty(&None), "");
    assert_eq!(api_key_or_empty(&Some("k".to_string())), "k");
}

#[test]
fn refused_listing_reports_status_and_body() {
    let e = discovery_failure("401 Unauthorized", "{\"error\":\"no\"}");
    assert!(matches!(e, Error::Provider(_)));
    assert_eq!(
        message(&e),
        "model discovery failed (401 Unauthorized): {\"error\":\"no\"}"
    );
}

#[test]
fn custom_headers_are_checked_in_order() {
    let ok = object(vec![("X-One", text("1")), ("x-two", text("two words"))]);
    assert_eq!(
        custom_headers(&ok).ok().unwrap(),
        vec![
            ("X-One".to_string(), "1".to_string()),
            ("x-two".to_string(), "two words".to_string())
        ]
    );
    let not_object = Json::Array(vec![]);
    assert_eq!(
        message(&custom_headers(&not_object).err().unwrap()),
        "custom headers must be an object"
    );
    let not_text = object(vec![("X-Num", Json::Number("1".to_string()))]);
    assert_eq!(
        message(&custom_headers(&not_text).err().unwrap()),
        "custom header X-Num must be a string"
    );
    let bad_name = object(vec![("bad name", text("v"))]);
    let err = custom_headers(&bad_name).err().unwrap();
    assert!(matches!(err, Error::Config(_)));
    assert_eq!(message(&err), "invalid header name: invalid HTTP header name");
    let bad_value = object(vec![("X-Ok", text("line\nbreak"))]);
    assert_eq!(
        message(&custom_headers(&bad_value).err().unwrap()),
        "invalid header value: failed to parse header value"
    );
    let empty = object(vec![]);
    assert!(custom_headers(&empty).ok().unwrap().is_empty());
    let empty_name = object(vec![("", text("v"))]);
    assert_eq!(
        message(&custom_headers(&empty_name).err().unwrap()),
        "invalid header name: invalid HTTP header name"
    );
    let non_ascii = object(vec![("x-ünï", text("v"))]);
    assert!(custom_headers(&non_ascii).is_err());
    let long_name = "a".repeat(65535);
    let long = Json::Object(vec![(long_name, text("v"))]);
    assert!(custom_headers(&long).is_ok());
    let too_long = Json::Object(vec![("a".repeat(65536), text("v"))]);
    assert!(custom_headers(&too_long).is_err());
    let tokens = object(vec![("!#$%&'*+-.^_`|~09AZaz", text("v\t\u{e9}"))]);
    assert!(custom_headers(&tokens).is_ok());
}

// ---------------------------------------------------------------------------
// Connectivity test
// ---------------------------------------------------------------------------

#[test]
fn reasoning_effort_defaults_to_medium() {
    assert_eq!(reasoning_effort(None), "medium");
    assert_eq!(reasoning_effort(Some("  ".to_string())), "medium");
    assert_eq!(reasoning_effort(Some("high".to_string())), "high");
}

#[test]
fn connectivity_request_carries_the_prompt_and_reasoning() {
    let id = connectivity_test_id();
    assert!(id.starts_with("model-test-"));
    assert_eq!(id.len(), 47);
    let digits: Vec<char> = id[11..].chars().collect();
    assert_eq!(digits[14], '4');
    assert!(matches!(digits[19], '8' | '9' | 'a' | 'b'));
    let r = connectivity_request("hash-1", true, None, id.clone());
    assert_eq!(r.model_id, "hash-1");
    assert_eq!(r.call_id, id);
    assert_eq!(r.run_id, id);
    assert_eq!(r.conversation_id, id);
    assert_eq!(r.provider_call_index, 0);
    assert!(r.reasoning_enabled);
    assert_eq!(r.reasoning_effort.as_deref(), Some("medium"));
    assert!(r.instructions.is_empty());
    assert_eq!(r.message_id, "connectivity-test");
    assert_eq!(
        r.prompt,
        "Output the numbers 1 through 120 separated by a single space. No commas, no newlines, no explanation."
    );
    assert_eq!(connectivity_prompt(), r.prompt);
    let r = connectivity_request("hash-2", false, Some("high".to_string()), id);
    assert_eq!(r.reasoning_effort, None);
}

#[test]
fn test_identifiers_differ() {
    assert_ne!(connectivity_test_id(), connectivity_test_id());
}

#[test]
fn probe_collects_text_and_usage() {
    let mut p = ConnectivityProbe::new();
    p.observe(ProbeEvent::Other, 1);
    p.observe(ProbeEvent::TextDelta("  ".to_string()), 5);
    assert_eq!(p.first_text_ms, None);
    p.observe(ProbeEvent::TextDelta("OK".to_string()), 9);
    p.observe(ProbeEvent::TextDelta(" more".to_string()), 12);
    p.observe(ProbeEvent::Usage(Some(0)), 13);
    assert_eq!(p.output_tokens, None);
    p.observe(ProbeEvent::Usage(Some(4)), 14);
    p.observe(ProbeEvent::Usage(Some(2)), 15);
    p.observe(ProbeEvent::Usage(None), 15);
    p.observe(ProbeEvent::Done, 16);
    assert_eq!(p.first_text_ms, Some(9));
    assert_eq!(p.output_tokens, Some(4));
    assert_eq!(p.output, "  OK more");
    let o = finish_probe(p, 20).ok().unwrap();
    assert_eq!(o.output, "OK more");
    assert_eq!(o.output_tokens, 4);
    assert!(!o.tokens_estimated);
    assert_eq!(o.duration_ms, 20);
    assert_eq!(o.first_text_ms, Some(9));
}

#[test]
fn probe_estimates_tokens_when_none_are_reported() {
    let mut p = ConnectivityProbe::new();
    p.observe(ProbeEvent::TextDelta("1 2 3 ".to_string()), 3);
    p.observe(ProbeEvent::Done, 4);
    let o = finish_probe(p, 5).ok().unwrap();
    assert_eq!(o.output, "1 2 3");
    assert_eq!(o.output_tokens, 3);
    assert!(o.tokens_estimated);
}

#[test]
fn probe_without_done_is_a_protocol_error() {
    let mut p = ConnectivityProbe::new();
    p.observe(ProbeEvent::TextDelta("partial".to_string()), 1);
    let e = finish_probe(p, 2).err().unwrap();
    assert!(matches!(e, Error::Protocol(_)));
    assert_eq!(
        message(&e),
        "provider stream ended without Done during connectivity test"
    );
}

#[test]
fn timeouts_are_reported_and_recorded() {
    assert_eq!(connectivity_timeout_secs(), 45);
    let e = connectivity_timeout_error();
    assert!(matches!(e, Error::Provider(_)));
    assert_eq!(message(&e), "model connectivity test timed out after 45 seconds");
    let r = connectivity_timeout_record(45_001);
    assert_eq!(r.status, "error");
    assert_eq!(r.duration_ms, 45_001);
    assert_eq!(r.error_kind, "timeout");
    assert_eq!(connectivity_timeout_record(u128::MAX).duration_ms, i64::MAX);
}

#[test]
fn durations_are_capped() {
    assert_eq!(clamp_millis(7), 7);
    assert_eq!(clamp_millis(u128::MAX), u64::MAX);
    assert_eq!(clamp_millis_signed(u128::from(u64::MAX)), i64::MAX);
}

// ---------------------------------------------------------------------------
// Service and advertisements
// ---------------------------------------------------------------------------

#[test]
fn service_is_built_only_when_the_harness_is() {
    let s = ControlService::new("store", 7u8, Ok::<&str, Error>("harness"))
        .ok()
        .unwrap();
    assert_eq!(*s.cursor_harness(), "harness");
    assert_eq!(*s.store(), "store");
    assert_eq!(*s.provider(), 7);
    let failed = ControlService::<&str, &str, u8>::new(
        "store",
        7,
        Err(Error::Config("no harness".to_string())),
    );
    assert_eq!(message(&failed.err().unwrap()), "no harness");
    let settings = ObservabilitySettings { detailed: true };
    assert!(settings.detailed);
}

#[test]
fn empty_dismissal_lists_are_not_sent() {
    assert_eq!(disabled_ads_header(None), None);
    assert_eq!(disabled_ads_header(Some("")), None);
    assert_eq!(disabled_ads_header(Some("a,b")), Some("a,b"));
}

#[test]
fn upstream_failures_quote_two_hundred_characters() {
    let body: String = "é".repeat(250);
    let e = upstream_failure("advertisement service", "500 Internal Server Error", &body);
    let m = message(&e);
    assert!(m.starts_with("advertisement service failed (500 Internal Server Error): "));
    assert_eq!(
        m.chars().count(),
        "advertisement service failed (500 Internal Server Error): ".len() + 200
    );
    let e = upstream_failure("advertisement dismissal", "404 Not Found", "gone");
    assert_eq!(message(&e), "advertisement dismissal failed (404 Not Found): gone");
}

#[test]
fn dismissal_address_appends_the_ad_and_drops_the_query() {
    let u = ad_dismissal_url("https://ads.example.com/v1/ads?lang=en", "ad 1")
        .ok()
        .unwrap();
    assert_eq!(u, "https://ads.example.com/v1/ads/ad%201/dismissals");
    let u = ad_dismissal_url("https://ads.example.com", "a/b").ok().unwrap();
    assert_eq!(u, "https://ads.example.com/a%2Fb/dismissals");
    let err = ad_dismissal_url("not a url", "x").err().unwrap();
    assert!(matches!(err, Error::Config(_)));
    assert_eq!(
        message(&err),
        "advertisement endpoint is invalid: relative URL without a base"
    );
    let err = ad_dismissal_url("mailto:ads@example.com", "x").err().unwrap();
    assert_eq!(message(&err), "advertisement endpoint cannot contain an ad id");
}

#[test]
fn decimal_text_matches_display() {
    for n in [0i64, 7, 10, 42, 1000, -1, -305, i64::MAX, i64::MIN] {
        assert_eq!(signed_decimal(n), n.to_string());
    }
    assert_eq!(unsigned_decimal(u64::MAX), u64::MAX.to_string());
    assert_eq!(unsigned_decimal(9), "9");
}

#[test]
fn missing_records_are_reported_by_kind_and_id() {
    assert_eq!(found_or_missing(Some(3), "model", "h").ok(), Some(3));
    let e = found_or_missing::<u8>(None, "model", "hash-1").err().unwrap();
    assert!(matches!(e, Error::RunNotFound(_)));
    assert_eq!(message(&e), "model hash-1");
    assert_eq!(message(&stored_provider::<u8>(None, -12).err().unwrap()), "provider -12");
    assert_eq!(stored_provider(Some("p"), 5).ok(), Some("p"));
}

#[test]
fn provider_call_detail_keeps_what_the_store_recorded() {
    let d = provider_call_detail(llm_call("a", 1), Some("req".to_string()), vec![1u8, 2], None);
    assert_eq!(d.call.route, "local_byok");
    assert_eq!(d.call.call_kind, "provider_llm");
    assert_eq!(d.request.as_deref(), Some("req"));
    assert_eq!(d.response_chunks, vec![1, 2]);
    assert!(d.cursor_trace.is_none());
}

#[test]
fn json_lookup_finds_the_first_member() {
    let o = object(vec![("k", text("first")), ("k", text("second")), ("b", Json::Bool(true))]);
    assert!(matches!(o.get("k"), Some(Json::Str(s)) if s == "first"));
    assert!(o.get("missing").is_none());
    assert_eq!(o.get("b").and_then(|v| v.as_boolean()), Some(true));
    assert!(text("x").get("k").is_none());
    assert_eq!(text("x").as_text().map(|s| s.as_str()), Some("x"));
}
