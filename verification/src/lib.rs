//! Verified core of a terminal chat client for Ollama: Markdown rendering to
//! styled terminal text, math protection, table layout, command parsing,
//! tool-payload normalisation and the client's stream bookkeeping.

pub mod style;
pub mod text;
pub mod math;
pub mod md_events;
pub mod md_doc;
pub mod theme;
pub mod md_layout;
pub mod syn;
pub mod md_render;
pub mod chat;
pub mod commands;
pub mod ui;
pub mod tools;
pub mod client;
pub mod json;
pub mod chat_view;
pub mod keys;
pub mod protocol;
pub mod streams;
pub mod session;
pub mod storage;
pub mod ndjson;
pub mod server;
pub mod agent;
pub mod settings;
pub mod file_tools;
pub mod chat_layout;
pub mod screens;
pub mod attach;
pub mod preview;
