//! Axis-aligned boxes and the overlap test.
//!
//! A box holds the points `(x, y)` with `min_x <= x < max_x` and
//! `min_y <= y < max_y`: its low edges belong to it, its high edges do not.
//! Two boxes that only touch along an edge therefore do not overlap.

use crate::physics::{saturate, Position};
use vstd::prelude::*;

verus! {

/// An axis-aligned rectangle.
#[derive(Clone, Copy, Debug, PartialEq, Eq, Structural)]
pub struct BoundingBox {
    pub min_x: i64,
    pub min_y: i64,
    pub max_x: i64,
    pub max_y: i64,
}

/// Whether the intervals from `lo1` up to `hi1` and from `lo2` up to `hi2`
/// share more than an end.
pub open spec fn intervals_overlap(lo1: int, hi1: int, lo2: int, hi2: int) -> bool {
    lo1 < hi2 && lo2 < hi1
}

impl BoundingBox {
    /// Whether the box holds a point at all.
    pub open spec fn non_empty(self) -> bool {
        self.min_x < self.max_x && self.min_y < self.max_y
    }

    /// Whether the point `(x, y)` is in the box.
    pub open spec fn holds(self, x: int, y: int) -> bool {
        self.min_x <= x < self.max_x && self.min_y <= y < self.max_y
    }

    /// Whether the two boxes overlap on both axes.
    pub open spec fn overlaps_spec(self, other: BoundingBox) -> bool {
        &&& intervals_overlap(
            self.min_x as int,
            self.max_x as int,
            other.min_x as int,
            other.max_x as int,
        )
        &&& intervals_overlap(
            self.min_y as int,
            self.max_y as int,
            other.min_y as int,
            other.max_y as int,
        )
    }

    /// The box moved so that its origin stands at `at`.
    pub open spec fn placed(self, at: Position) -> BoundingBox {
        BoundingBox {
            min_x: saturate(self.min_x + at.x) as i64,
            min_y: saturate(self.min_y + at.y) as i64,
            max_x: saturate(self.max_x + at.x) as i64,
            max_y: saturate(self.max_y + at.y) as i64,
        }
    }

    /// The box between the two given corners.
    pub fn new(min_x: i64, min_y: i64, max_x: i64, max_y: i64) -> (b: BoundingBox)
        ensures
            b == (BoundingBox { min_x, min_y, max_x, max_y }),
    {
        BoundingBox { min_x, min_y, max_x, max_y }
    }

    /// Whether the two boxes overlap.
    pub fn overlaps(&self, other: &BoundingBox) -> (hit: bool)
        ensures
            hit == self.overlaps_spec(*other),
    {
        self.max_x > other.min_x && self.min_x < other.max_x && self.max_y > other.min_y
            && self.min_y < other.max_y
    }

    /// The box in world coordinates of a body that stands at `at` and
    /// whose shape, measured from its own position, is `self`.
    pub fn at(&self, at: Position) -> (b: BoundingBox)
        ensures
            b == self.placed(at),
    {
        BoundingBox {
            min_x: crate::physics::add_saturating(self.min_x, at.x),
            min_y: crate::physics::add_saturating(self.min_y, at.y),
            max_x: crate::physics::add_saturating(self.max_x, at.x),
            max_y: crate::physics::add_saturating(self.max_y, at.y),
        }
    }

    /// Overlap does not depend on the order of the two boxes.
    pub proof fn lemma_overlap_symmetric(self, other: BoundingBox)
        ensures
            self.overlaps_spec(other) == other.overlaps_spec(self),
    {
    }

    /// Two boxes that hold points overlap exactly when some point is in
    /// both.
    pub proof fn lemma_overlap_is_shared_point(self, other: BoundingBox)
        requires
            self.non_empty(),
            other.non_empty(),
        ensures
            self.overlaps_spec(other) <==> exists|x: int, y: int|
                #[trigger] self.holds(x, y) && other.holds(x, y),
    {
        if self.overlaps_spec(other) {
            let x = if self.min_x >= other.min_x {
                self.min_x as int
            } else {
                other.min_x as int
            };
            let y = if self.min_y >= other.min_y {
                self.min_y as int
            } else {
                other.min_y as int
            };
            assert(self.holds(x, y) && other.holds(x, y));
        }
    }

    /// Boxes that only touch along an edge or at a corner do not overlap.
    pub proof fn lemma_touching_is_no_overlap(self, other: BoundingBox)
        requires
            self.max_x == other.min_x || self.max_y == other.min_y || other.max_x == self.min_x
                || other.max_y == self.min_y,
        ensures
            !self.overlaps_spec(other),
    {
    }
}

} // verus!
