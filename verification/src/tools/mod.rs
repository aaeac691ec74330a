//! What the tool servers do about the calls of their tools.

pub mod close;
pub mod commit_workflow;
pub mod confetti;
pub mod gh;
pub mod git;
pub mod open;
pub mod process;
pub mod python;
pub mod reply;
