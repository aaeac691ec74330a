//! The tool servers that are registered with an agent: which ones, how they
//! are reached, and what decides it.

pub mod github;
pub mod milestone;
pub mod search;
pub mod servers;
pub mod sockets;
