//! The verified core of a coding assistant: its chat transcript and screen
//! layout, its session and workflow state machines, the wire format of its
//! helper servers, and the rules those servers apply.

pub mod acp;
pub mod bridge;
pub mod bubble_layout;
pub mod chat_log;
pub mod commit;
pub mod definition;
pub mod json;
pub mod layout;
pub mod log_buffer;
pub mod logging;
pub mod lorem;
pub mod markdown;
pub mod mcp;
pub mod prompt;
pub mod sandbox;
pub mod session;
pub mod text;
pub mod timeline;
pub mod timeline_layout;
pub mod tools;
pub mod ui;
pub mod wire;
pub mod workflow;
