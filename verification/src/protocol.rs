use vstd::prelude::*;
use crate::chat::Message;
use crate::json::Json;

verus! {

/// A request from the client to the server.
#[derive(Debug)]
pub enum ClientRequest {
    StartStream {
        request_id: String,
        chat_id: String,
        created_ts: i64,
        api_url: String,
        model: String,
        options: Option<Json>,
        ollama_api_key: Option<String>,
        web_search: bool,
        messages: Vec<Message>,
    },
    CancelStream {
        request_id: String,
        chat_id: String,
    },
    ClientToolResult {
        tool_call_id: String,
        result: Json,
    },
}

/// An event from the server about one stream.
#[derive(Debug)]
pub enum ServerEvent {
    Chunk { request_id: String, chat_id: String, delta: String },
    Thinking { request_id: String, chat_id: String, delta: String },
    Status { request_id: String, chat_id: String, message: String },
    Source { request_id: String, chat_id: String, title: String, url: String, snippet: String },
    ToolCallStarted { request_id: String, chat_id: String, tool_call_id: String, name: String, args: Json },
    ToolCallFinished { request_id: String, chat_id: String, tool_call_id: String, result_summary: String },
    ToolCallFailed { request_id: String, chat_id: String, tool_call_id: String, error: String },
    ClientToolRequest { request_id: String, chat_id: String, tool_call_id: String, name: String, args: Json },
    Done { request_id: String, chat_id: String, status: Option<String> },
    Error { request_id: String, chat_id: String, message: String },
}

impl ServerEvent {
    /// The chat the event is about.
    pub open spec fn chat(self) -> Seq<char> {
        match self {
            ServerEvent::Chunk { chat_id, .. } => chat_id@,
            ServerEvent::Thinking { chat_id, .. } => chat_id@,
            ServerEvent::Status { chat_id, .. } => chat_id@,
            ServerEvent::Source { chat_id, .. } => chat_id@,
            ServerEvent::ToolCallStarted { chat_id, .. } => chat_id@,
            ServerEvent::ToolCallFinished { chat_id, .. } => chat_id@,
            ServerEvent::ToolCallFailed { chat_id, .. } => chat_id@,
            ServerEvent::ClientToolRequest { chat_id, .. } => chat_id@,
            ServerEvent::Done { chat_id, .. } => chat_id@,
            ServerEvent::Error { chat_id, .. } => chat_id@,
        }
    }

    /// The request the event answers.
    pub open spec fn request(self) -> Seq<char> {
        match self {
            ServerEvent::Chunk { request_id, .. } => request_id@,
            ServerEvent::Thinking { request_id, .. } => request_id@,
            ServerEvent::Status { request_id, .. } => request_id@,
            ServerEvent::Source { request_id, .. } => request_id@,
            ServerEvent::ToolCallStarted { request_id, .. } => request_id@,
            ServerEvent::ToolCallFinished { request_id, .. } => request_id@,
            ServerEvent::ToolCallFailed { request_id, .. } => request_id@,
            ServerEvent::ClientToolRequest { request_id, .. } => request_id@,
            ServerEvent::Done { request_id, .. } => request_id@,
            ServerEvent::Error { request_id, .. } => request_id@,
        }
    }
}

} // verus!
