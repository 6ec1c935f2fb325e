//! Terminal cell rectangles and the small chrome constants the dialogs share.
use vstd::prelude::*;

verus! {

/// A rectangle of terminal cells: its top-left corner and its size.
#[derive(Clone, Copy, Debug, PartialEq, Eq, Structural)]
pub struct Rect {
    pub x: u16,
    pub y: u16,
    pub width: u16,
    pub height: u16,
}

/// `a + b`, capped at `u16::MAX`.
pub open spec fn sat_add_u16(a: int, b: int) -> int {
    if a + b > u16::MAX { u16::MAX as int } else { a + b }
}

/// `a - b`, floored at zero.
pub open spec fn sat_sub(a: int, b: int) -> int {
    if a > b { a - b } else { 0 }
}

impl Rect {
    /// The first column right of the rectangle (saturating).
    pub open spec fn spec_right(self) -> int {
        sat_add_u16(self.x as int, self.width as int)
    }

    /// The first row below the rectangle (saturating).
    pub open spec fn spec_bottom(self) -> int {
        sat_add_u16(self.y as int, self.height as int)
    }

    /// Whether the cell `(x, y)` lies inside the rectangle.
    pub open spec fn spec_contains(self, x: int, y: int) -> bool {
        self.x <= x < self.spec_right() && self.y <= y < self.spec_bottom()
    }

    pub fn new(x: u16, y: u16, width: u16, height: u16) -> (r: Rect)
        ensures
            r == (Rect { x, y, width, height }),
    {
        Rect { x, y, width, height }
    }

    pub fn right(&self) -> (r: u16)
        ensures
            r == self.spec_right(),
    {
        self.x.saturating_add(self.width)
    }

    pub fn bottom(&self) -> (r: u16)
        ensures
            r == self.spec_bottom(),
    {
        self.y.saturating_add(self.height)
    }
}

/// Whether the cell `(x, y)` lies inside `rect`; the one containment test that
/// drawing and every mouse hit-test share.
pub fn point_in_rect(rect: Rect, x: u16, y: u16) -> (inside: bool)
    ensures
        inside == rect.spec_contains(x as int, y as int),
{
    x >= rect.x && x < rect.right() && y >= rect.y && y < rect.bottom()
}

} // verus!
