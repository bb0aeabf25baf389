use vstd::prelude::*;

verus! {

/// An axis-aligned rectangle with inclusive corners `(x1, y1)` and `(x2, y2)`.
#[derive(Clone, Copy, Debug, PartialEq, Eq, Structural)]
pub struct Rect {
    pub x1: i32,
    pub y1: i32,
    pub x2: i32,
    pub y2: i32,
}

impl Rect {
    /// The corners are ordered.
    pub open spec fn wf(self) -> bool {
        self.x1 <= self.x2 && self.y1 <= self.y2
    }

    /// The tile `(x, y)` lies inside the closed rectangle.
    pub open spec fn contains(self, x: int, y: int) -> bool {
        self.x1 <= x <= self.x2 && self.y1 <= y <= self.y2
    }

    /// The two closed rectangles share at least one tile.
    pub open spec fn overlaps(self, other: Rect) -> bool {
        self.x1 <= other.x2 && self.x2 >= other.x1 && self.y1 <= other.y2 && self.y2 >= other.y1
    }

    /// A rectangle of `width` by `height` tiles whose top-left tile is `(x, y)`.
    pub fn new(x: i32, y: i32, width: i32, height: i32) -> (r: Rect)
        requires
            width >= 1,
            height >= 1,
            x + width - 1 <= i32::MAX,
            y + height - 1 <= i32::MAX,
        ensures
            r.x1 == x,
            r.y1 == y,
            r.x2 == x + width - 1,
            r.y2 == y + height - 1,
            r.wf(),
    {
        Rect { x1: x, y1: y, x2: x + (width - 1), y2: y + (height - 1) }
    }

    /// Whether the two closed rectangles overlap.
    pub fn intersect(&self, other: &Rect) -> (r: bool)
        ensures
            r == self.overlaps(*other),
    {
        self.x1 <= other.x2 && self.x2 >= other.x1 && self.y1 <= other.y2 && self.y2 >= other.y1
    }
}

} // verus!
