//! The state of the terminal view, and what it shows.

pub mod app;
pub mod areas;
pub mod chat_view;
pub mod cluster;
pub mod confetti;
pub mod fix_session;
pub mod keys;
pub mod log_popup;
pub mod navigation;
pub mod popups;
pub mod style;
