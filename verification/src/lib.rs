//! Verified core of a small desktop chat client for a local LLM server:
//! prompt-size buckets, token budget rules, text scanning and formatting,
//! tool-call handling and the conversation state machine.

pub mod text;
pub mod scan;
pub mod sizes;
pub mod decode;
pub mod table;
pub mod predictor;
pub mod sycophancy;
pub mod chat;
pub mod mermaid;
pub mod session;
pub mod listing;
pub mod json;
pub mod tools;
pub mod stream;
pub mod workspace;
pub mod clock;
pub mod settings;
pub mod server;
pub mod display;
