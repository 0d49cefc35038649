//! Axis-aligned rectangles used as candidate and accepted rooms.

use vstd::prelude::*;

verus! {

/// An axis-aligned rectangle. `(x1, y1)` is the top-left corner (inclusive);
/// `(x2, y2)` is the bottom-right corner, exclusive by convention since it is
/// derived as `x1 + width`, `y1 + height`.
#[derive(Clone, Copy, Debug, PartialEq, Eq, Structural)]
pub struct Rect {
    pub x1: usize,
    pub x2: usize,
    pub y1: usize,
    pub y2: usize,
}

impl Rect {
    /// A rectangle built by `new` always satisfies this: the corners are
    /// ordered on both axes.
    pub open spec fn well_formed(self) -> bool {
        self.x1 <= self.x2 && self.y1 <= self.y2
    }

    /// The overlap test, with closed-interval semantics: rectangles that
    /// merely touch edges count as overlapping. This conservatism keeps
    /// accepted rooms spaced apart.
    pub open spec fn spec_overlaps(self, other: Rect) -> bool {
        self.x1 <= other.x2 && self.x2 >= other.x1 && self.y1 <= other.y2 && self.y2 >= other.y1
    }

    /// True when the cell `(x, y)` lies in the rectangle's interior
    /// `[x1, x2) x [y1, y2)`.
    pub open spec fn contains(self, x: int, y: int) -> bool {
        self.x1 <= x < self.x2 && self.y1 <= y < self.y2
    }

    pub fn new(x: usize, y: usize, w: usize, h: usize) -> (r: Rect)
        requires
            x + w <= usize::MAX,
            y + h <= usize::MAX,
        ensures
            r.x1 == x,
            r.y1 == y,
            r.x2 == x + w,
            r.y2 == y + h,
            r.well_formed(),
    {
        Rect { x1: x, y1: y, x2: x + w, y2: y + h }
    }

    /// Whether the two rectangles' projections intersect on both axes,
    /// inclusive at boundaries.
    pub fn overlaps_with(&self, other: &Rect) -> (r: bool)
        ensures
            r == self.spec_overlaps(*other),
    {
        self.x1 <= other.x2 && self.x2 >= other.x1 && self.y1 <= other.y2 && self.y2 >= other.y1
    }

    /// The integer midpoint of the rectangle, using truncating division.
    pub fn center(&self) -> (c: (usize, usize))
        requires
            self.x1 + self.x2 <= usize::MAX,
            self.y1 + self.y2 <= usize::MAX,
        ensures
            c.0 == (self.x1 + self.x2) / 2,
            c.1 == (self.y1 + self.y2) / 2,
    {
        ((self.x1 + self.x2) / 2, (self.y1 + self.y2) / 2)
    }
}

/// Overlap is symmetric: `a` overlaps `b` exactly when `b` overlaps `a`.
pub proof fn lemma_overlaps_symmetric(a: Rect, b: Rect)
    ensures
        a.spec_overlaps(b) == b.spec_overlaps(a),
{
}

/// Overlap is reflexive on well-formed rectangles: every rectangle overlaps
/// itself.
pub proof fn lemma_overlaps_reflexive(a: Rect)
    requires
        a.well_formed(),
    ensures
        a.spec_overlaps(a),
{
}

} // verus!
