use vstd::prelude::*;

verus! {

/// An axis-aligned rectangle of terminal cells, with the same meaning as the
/// rectangles of the terminal UI library that draws the game.
#[derive(Debug, Clone, Copy, PartialEq, Eq)]
pub struct Rect {
    pub x: u16,
    pub y: u16,
    pub width: u16,
    pub height: u16,
}

/// `a + b`, clamped to `u16::MAX`.
pub open spec fn sat_add16(a: u16, b: u16) -> u16 {
    if a + b > u16::MAX { u16::MAX } else { (a + b) as u16 }
}

/// `a - b`, clamped to zero.
pub open spec fn sat_sub16(a: u16, b: u16) -> u16 {
    if a < b { 0 } else { (a - b) as u16 }
}

impl Rect {
    /// The first column to the right of the rectangle, clamped to `u16::MAX`.
    pub open spec fn right(self) -> u16 {
        sat_add16(self.x, self.width)
    }

    /// The first row below the rectangle, clamped to `u16::MAX`.
    pub open spec fn bottom(self) -> u16 {
        sat_add16(self.y, self.height)
    }

    /// Two rectangles intersect when each starts before the other one ends,
    /// on both axes.
    pub open spec fn overlaps(self, other: Rect) -> bool {
        &&& self.x < other.right()
        &&& self.right() > other.x
        &&& self.y < other.bottom()
        &&& self.bottom() > other.y
    }

    /// The rectangle that `Rect::new` builds: width and height are cut so that
    /// the rectangle does not reach past `u16::MAX`.
    pub open spec fn clamped(x: u16, y: u16, width: u16, height: u16) -> Rect {
        Rect {
            x,
            y,
            width: (sat_add16(x, width) - x) as u16,
            height: (sat_add16(y, height) - y) as u16,
        }
    }

    /// Builds a rectangle with `ratatui::layout::Rect::new`, which clamps the
    /// width and the height so that the right and bottom edges stay within
    /// `u16::MAX`.
    #[verifier::external_body]
    pub(crate) fn new(x: u16, y: u16, width: u16, height: u16) -> (r: Rect)
        ensures
            r == Rect::clamped(x, y, width, height),
    {
        let r = ratatui::layout::Rect::new(x, y, width, height);
        Rect { x: r.x, y: r.y, width: r.width, height: r.height }
    }

    /// Asks `ratatui::layout::Rect::intersects` whether two rectangles share
    /// a cell; its source compares the edges as `overlaps` states.
    #[verifier::external_body]
    pub(crate) fn intersects(self, other: Rect) -> (b: bool)
        ensures
            b == self.overlaps(other),
    {
        let a = ratatui::layout::Rect { x: self.x, y: self.y, width: self.width, height: self.height };
        let o = ratatui::layout::Rect { x: other.x, y: other.y, width: other.width, height: other.height };
        a.intersects(o)
    }
}

} // verus!
