//! Commit messages in the Conventional Commits form.

pub mod description;
pub mod message;
pub mod verbatim;
