//! An interactive, multi-turn session with an agent.

pub mod ack;
pub mod commit_fix_event;
pub mod driver;
pub mod plan;
pub mod tool_call;
pub mod updates;
