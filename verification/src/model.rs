use vstd::prelude::*;

use crate::json::Json;

verus! {

/// What the service answers when a request cannot be served.
#[derive(Debug)]
pub enum Error {
    /// An upstream service answered with a failure.
    Provider(String),
    /// The service's own configuration is unusable.
    Config(String),
    /// What was asked for does not exist.
    RunNotFound(String),
    /// An upstream stream broke its protocol.
    Protocol(String),
}

impl Error {
    /// The message carried by the error.
    pub open spec fn message(self) -> Seq<char> {
        match self {
            Error::Provider(m) => m@,
            Error::Config(m) => m@,
            Error::RunNotFound(m) => m@,
            Error::Protocol(m) => m@,
        }
    }
}

/// One recorded call to a language model, as the call listings show it.
pub struct LlmCallSummary {
    pub call_id: String,
    pub run_id: String,
    pub conversation_id: String,
    pub provider_call_index: i64,
    pub model_hash: Option<String>,
    pub provider_type: String,
    pub provider_url: String,
    pub request_type: String,
    pub request_url: String,
    pub model_id: String,
    pub display_name: String,
    pub reasoning_effort: Option<String>,
    pub fast: Option<bool>,
    pub status: String,
    pub finish_reason: Option<String>,
    pub created_at_ms: i64,
    pub request_started_at_ms: Option<i64>,
    pub response_headers_at_ms: Option<i64>,
    pub first_event_at_ms: Option<i64>,
    pub first_text_at_ms: Option<i64>,
    pub finished_at_ms: Option<i64>,
    pub queue_ms: Option<i64>,
    pub ttfb_ms: Option<i64>,
    pub ttft_ms: Option<i64>,
    pub duration_ms: Option<i64>,
    pub input_tokens: Option<i64>,
    pub output_tokens: Option<i64>,
    pub total_tokens: Option<i64>,
    pub cache_read_tokens: Option<i64>,
    pub cache_write_tokens: Option<i64>,
    pub reasoning_tokens: Option<i64>,
    pub usage: Option<Json>,
    pub message_count: i64,
    pub tool_count: i64,
    pub request_bytes: Option<i64>,
    pub response_bytes: Option<i64>,
    pub stream_event_count: i64,
    pub http_status: Option<i64>,
    pub error_kind: Option<String>,
    pub error_message: Option<String>,
    pub detailed: bool,
}

/// A request that went through the editor vendor's own route, as its trace
/// records it.
pub struct CursorRunTraceSummary {
    pub request_id: String,
    pub conversation_id: Option<String>,
    pub model_id: Option<String>,
    pub route: String,
    pub status: String,
    pub received_at_ms: i64,
    pub first_response_at_ms: Option<i64>,
    pub finished_at_ms: Option<i64>,
    pub request_bytes: i64,
    pub response_bytes: Option<i64>,
    pub response_event_count: i64,
    pub http_status: Option<i64>,
    pub error_message: Option<String>,
}

/// One stored artifact of a traced request: raw bytes with their metadata.
pub struct CursorRunTraceArtifact {
    pub seq: i64,
    pub artifact_type: String,
    pub source: String,
    pub metadata: Json,
    pub created_at_ms: i64,
    pub data: Vec<u8>,
}

} // verus!
