//! Plain data shapes shared across the library.

use vstd::prelude::*;
use crate::time::Timestamp;

verus! {

/// The single error taxonomy: storage failures, filesystem failures and
/// timestamp-parse failures are all converted to this one message-carrying
/// shape at the boundary, so callers never branch on a specific backend.
#[derive(Debug)]
pub struct AppError(pub String);

impl AppError {
    /// Wraps a human-readable message.
    pub fn new(message: String) -> (e: AppError)
        ensures
            e.0 == message,
    {
        AppError(message)
    }

    /// The human-readable message carried by this error.
    pub fn message(&self) -> (m: &String)
        ensures
            m == self.0,
    {
        &self.0
    }
}

/// Body of one generation call to the model server.
pub struct OllamaRequest {
    pub model: String,
    pub prompt: String,
    pub stream: bool,
}

impl OllamaRequest {
    /// Builds the request for one generation call; streaming is always off.
    pub fn new(model: String, prompt: String) -> (r: OllamaRequest)
        ensures
            r.model == model,
            r.prompt == prompt,
            r.stream == false,
    {
        OllamaRequest { model, prompt, stream: false }
    }
}

/// The single field read out of the model server's answer.
pub struct OllamaResponse {
    pub response: String,
}

/// One completed exchange: created once, when a model response is received,
/// and immutable thereafter.  `id` is assigned by the store on append.
#[derive(Debug, Clone)]
pub struct ConversationEntry {
    pub id: i64,
    pub timestamp: Timestamp,
    pub prompt: String,
    pub response: String,
    pub model_used: String,
    pub response_time_ms: i64,
    pub file_context: Option<String>,
}

impl ConversationEntry {
    /// A real exchange: a well-formed instant and a non-negative latency.
    pub open spec fn wf(self) -> bool {
        self.timestamp.wf() && self.response_time_ms >= 0
    }

    /// A field-preserving copy.
    pub fn duplicate(&self) -> (r: ConversationEntry)
        ensures
            r == *self,
    {
        ConversationEntry {
            id: self.id,
            timestamp: self.timestamp,
            prompt: self.prompt.clone(),
            response: self.response.clone(),
            model_used: self.model_used.clone(),
            response_time_ms: self.response_time_ms,
            file_context: match &self.file_context {
                Some(c) => Some(c.clone()),
                None => None,
            },
        }
    }
}

/// A derived, recomputed-on-demand view over the whole log.  The mean
/// latency is kept as an integer of milliseconds together with the total it
/// was computed from, so nothing is lost to rounding.
#[derive(Debug, Clone)]
pub struct Analytics {
    pub total_requests: usize,
    pub avg_response_time_ms: u64,
    pub response_time_total_ms: u64,
    pub most_used_model: String,
    pub total_tokens_approx: u64,
    pub sessions_today: usize,
    pub cache_hits: usize,
    pub cache_misses: usize,
}

impl Analytics {
    /// The all-zero snapshot an empty log yields.
    pub fn empty() -> (r: Analytics)
        ensures
            r.total_requests == 0,
            r.avg_response_time_ms == 0,
            r.response_time_total_ms == 0,
            r.most_used_model@ == Seq::<char>::empty(),
            r.total_tokens_approx == 0,
            r.sessions_today == 0,
            r.cache_hits == 0,
            r.cache_misses == 0,
    {
        Analytics {
            total_requests: 0,
            avg_response_time_ms: 0,
            response_time_total_ms: 0,
            most_used_model: String::new(),
            total_tokens_approx: 0,
            sessions_today: 0,
            cache_hits: 0,
            cache_misses: 0,
        }
    }
}

/// One completed piece of background work, as the bus carries it from a
/// worker task to the interactive loop.
#[derive(Debug)]
pub enum PendingOperation {
    /// A generated model response, ready for display.
    Response(String),
    /// A freshly recomputed analytics snapshot.
    Analytics(Analytics),
    /// Retrieved prior exchanges for the suggestion panel.
    RagSuggestions(Vec<ConversationEntry>),
    /// The terminal marker of one chat request: always posted last.
    LoadingComplete,
    /// A background failure, surfaced instead of being swallowed.
    Error(String),
}

/// One line of the visible transcript.
#[derive(Debug, Clone)]
pub struct ChatMessage {
    pub content: String,
    pub is_user: bool,
    pub timestamp: Timestamp,
    pub model_used: Option<String>,
    pub response_time: Option<i64>,
}

} // verus!
