//! Workflows defined by the tools they offer and the tool that completes
//! them.

pub mod completion_tool;
pub mod tool;
pub mod workflow;
