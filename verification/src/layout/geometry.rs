//! Rectangles of terminal cells and the borders drawn around them.

use vstd::prelude::*;

verus! {

/// A rectangle of terminal cells.
#[derive(Debug, Clone, Copy, PartialEq, Eq, Structural)]
pub struct Rect {
    pub x: u16,
    pub y: u16,
    pub width: u16,
    pub height: u16,
}

impl Rect {
    /// The rectangle with its top left corner at `x` and `y`.
    pub fn new(x: u16, y: u16, width: u16, height: u16) -> (rect: Self)
        ensures
            rect == (Rect { x, y, width, height }),
    {
        Rect { x, y, width, height }
    }
}

/// The edges of a rectangle that have a border.
#[derive(Debug, Clone, Copy, PartialEq, Eq, Structural)]
pub struct Borders {
    pub top: bool,
    pub right: bool,
    pub bottom: bool,
    pub left: bool,
}

/// A border on every edge.
pub open spec fn all_borders() -> Borders {
    Borders { top: true, right: true, bottom: true, left: true }
}

/// A border on no edge.
pub open spec fn no_borders() -> Borders {
    Borders { top: false, right: false, bottom: false, left: false }
}

impl Borders {
    /// A border on every edge.
    pub fn all() -> (borders: Self)
        ensures
            borders == all_borders(),
    {
        Borders { top: true, right: true, bottom: true, left: true }
    }

    /// A border on no edge.
    pub fn none() -> (borders: Self)
        ensures
            borders == no_borders(),
    {
        Borders { top: false, right: false, bottom: false, left: false }
    }
}

/// Horizontal alignment of a bubble within the viewport.
#[derive(Debug, Clone, Copy, PartialEq, Eq, Structural)]
pub enum Alignment {
    Left,
    Right,
}

} // verus!
