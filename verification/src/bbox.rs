//! Axis-aligned bounding rectangles in a fixed coordinate reference system.
//!
//! Coordinates are fixed-point working units (see `crate::fixed`). A box is
//! immutable once built: buffering produces a new, larger box.

use vstd::prelude::*;

verus! {

/// An axis-aligned rectangle `{min_x, min_y, max_x, max_y}`.
#[derive(Clone, Copy, Debug, PartialEq, Eq, Structural)]
pub struct BBox {
    pub min_x: i64,
    pub min_y: i64,
    pub max_x: i64,
    pub max_y: i64,
}

impl BBox {
    /// A well-formed box has its minimum corner at or below its maximum.
    pub open spec fn wf(self) -> bool {
        self.min_x <= self.max_x && self.min_y <= self.max_y
    }

    /// Closed containment of a point.
    pub open spec fn spec_contains(self, x: int, y: int) -> bool {
        self.min_x <= x <= self.max_x && self.min_y <= y <= self.max_y
    }

    /// The 2D interval-overlap test between two boxes, as the spatial index
    /// applies it to each stored record.
    pub open spec fn spec_overlaps(self, other: BBox) -> bool {
        &&& other.max_x >= self.min_x
        &&& other.min_x <= self.max_x
        &&& other.max_y >= self.min_y
        &&& other.min_y <= self.max_y
    }

    pub fn new(min_x: i64, min_y: i64, max_x: i64, max_y: i64) -> (r: BBox)
        ensures
            r == (BBox { min_x, min_y, max_x, max_y }),
    {
        BBox { min_x, min_y, max_x, max_y }
    }

    /// True exactly when `(x, y)` lies inside this box, borders included.
    pub fn contains(&self, x: i64, y: i64) -> (r: bool)
        ensures
            r == self.spec_contains(x as int, y as int),
    {
        self.min_x <= x && x <= self.max_x && self.min_y <= y && y <= self.max_y
    }

    /// True exactly when the two boxes share at least one point
    /// (for well-formed boxes); the test the index query runs per record.
    pub fn overlaps(&self, other: &BBox) -> (r: bool)
        ensures
            r == self.spec_overlaps(*other),
    {
        other.max_x >= self.min_x && other.min_x <= self.max_x && other.max_y >= self.min_y
            && other.min_y <= self.max_y
    }

    /// A new box grown symmetrically by `margin` on all four sides.
    pub fn to_extended(&self, margin: i64) -> (r: BBox)
        requires
            margin >= 0,
            self.min_x - margin >= i64::MIN,
            self.min_y - margin >= i64::MIN,
            self.max_x + margin <= i64::MAX,
            self.max_y + margin <= i64::MAX,
        ensures
            r == (BBox {
                min_x: (self.min_x - margin) as i64,
                min_y: (self.min_y - margin) as i64,
                max_x: (self.max_x + margin) as i64,
                max_y: (self.max_y + margin) as i64,
            }),
    {
        BBox {
            min_x: self.min_x - margin,
            min_y: self.min_y - margin,
            max_x: self.max_x + margin,
            max_y: self.max_y + margin,
        }
    }

    /// Buffering never loses points: whatever the native box contains, the
    /// buffered box contains too; and with a positive margin the buffered box
    /// strictly contains the native extent (points just past a native edge,
    /// such as its corners pushed outward, are still accepted).
    pub proof fn lemma_extended_contains(self, margin: int, x: int, y: int)
        requires
            margin >= 0,
            i64::MIN <= self.min_x - margin,
            i64::MIN <= self.min_y - margin,
            self.max_x + margin <= i64::MAX,
            self.max_y + margin <= i64::MAX,
        ensures
            self.spec_contains(x, y) ==> (BBox {
                min_x: (self.min_x - margin) as i64,
                min_y: (self.min_y - margin) as i64,
                max_x: (self.max_x + margin) as i64,
                max_y: (self.max_y + margin) as i64,
            }).spec_contains(x, y),
            margin > 0 && self.wf() ==> (BBox {
                min_x: (self.min_x - margin) as i64,
                min_y: (self.min_y - margin) as i64,
                max_x: (self.max_x + margin) as i64,
                max_y: (self.max_y + margin) as i64,
            }).spec_contains(self.max_x + margin, self.max_y + margin) && !self.spec_contains(
                self.max_x + margin,
                self.max_y + margin,
            ),
    {
    }
}

} // verus!
