//! Text as sequences of characters: the operations the rest of the crate
//! states its contracts with, each beside the function that computes it.

pub mod chars;
pub mod lines;
pub mod number;
pub mod search;
pub mod text_map;
pub mod words;
