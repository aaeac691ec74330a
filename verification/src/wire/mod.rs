//! The messages that the assistant and its helper servers exchange over Unix
//! sockets, one to a line.

pub mod close_action;
pub mod commit_fix;
pub mod confetti;
pub mod members;
pub mod names;
pub mod socket;
pub mod workflow_event;
