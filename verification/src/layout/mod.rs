//! Placement of content on a terminal: rectangles, and content stacked in rows
//! behind a viewport.

pub mod geometry;
pub mod stack;
