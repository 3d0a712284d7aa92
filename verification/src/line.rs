//! Straight lines across the grid of terrain cells.

use crate::mask::Mask;
use crate::physics::CELL_LIMIT;
use crate::terrain::Terrain;
use vstd::prelude::*;

verus! {

/// The cells that `line_drawing::Bresenham` walks from `(x0, y0)` to
/// `(x1, y1)`, in the order in which it yields them.
pub uninterp spec fn line_points(x0: i32, y0: i32, x1: i32, y1: i32) -> Seq<(i32, i32)>;

/// Whether a cell coordinate is one that a line can be drawn from or to.
pub open spec fn drawable(v: i32) -> bool {
    -CELL_LIMIT <= v <= CELL_LIMIT
}

/// The cell coordinate nearest to `v` that a line can be drawn from or to.
pub open spec fn drawn(v: i32) -> i32 {
    if v < -CELL_LIMIT {
        (-CELL_LIMIT) as i32
    } else if v > CELL_LIMIT {
        CELL_LIMIT
    } else {
        v
    }
}

/// The cell coordinate nearest to `v` that a line can be drawn from or to.
pub fn nearest_drawable(v: i32) -> (r: i32)
    ensures
        r == drawn(v),
        drawable(r),
{
    if v < -CELL_LIMIT {
        -CELL_LIMIT
    } else if v > CELL_LIMIT {
        CELL_LIMIT
    } else {
        v
    }
}

/// Calls `line_drawing::Bresenham::new` on the two end points and collects
/// what the iterator yields. The contract claims that the result is the
/// sequence named `line_points`, and, as the crate documents, that the line
/// holds both its start and its end: it is not empty, its first cell is the
/// start and its last cell the end. The coordinates are kept small because
/// the iterator adds and subtracts them unguarded against overflow.
#[verifier::external_body]
fn bresenham(x0: i32, y0: i32, x1: i32, y1: i32) -> (points: Vec<(i32, i32)>)
    requires
        drawable(x0),
        drawable(y0),
        drawable(x1),
        drawable(y1),
    ensures
        points@ == line_points(x0, y0, x1, y1),
        points@.len() >= 1,
        points@[0] == (x0, y0),
        points@[points@.len() - 1] == (x1, y1),
{
    line_drawing::Bresenham::new((x0, y0), (x1, y1)).collect()
}

/// The first of `points` that is a solid cell of `mask`, if there is one.
pub open spec fn first_solid(mask: Mask, points: Seq<(i32, i32)>) -> Option<(i32, i32)>
    decreases points.len(),
{
    if points.len() == 0 {
        None
    } else if mask.solid.contains((points[0].0 as int, points[0].1 as int)) {
        Some(points[0])
    } else {
        first_solid(mask, points.subrange(1, points.len() as int))
    }
}

/// What `first_solid` finds is a solid cell among the points, with no
/// solid cell before it; it finds none only where none of the points is
/// solid.
pub proof fn lemma_first_solid(mask: Mask, points: Seq<(i32, i32)>)
    ensures
        match first_solid(mask, points) {
            Some(c) => exists|k: int|
                0 <= k < points.len() && #[trigger] points[k] == c && mask.solid.contains(
                    (c.0 as int, c.1 as int),
                ) && forall|j: int|
                    0 <= j < k ==> !mask.solid.contains(
                        ((#[trigger] points[j]).0 as int, points[j].1 as int),
                    ),
            None => forall|j: int|
                0 <= j < points.len() ==> !mask.solid.contains(
                    ((#[trigger] points[j]).0 as int, points[j].1 as int),
                ),
        },
    decreases points.len(),
{
    if points.len() == 0 {
    } else if mask.solid.contains((points[0].0 as int, points[0].1 as int)) {
        assert(points[0] == points[0]);
    } else {
        let rest = points.subrange(1, points.len() as int);
        lemma_first_solid(mask, rest);
        match first_solid(mask, rest) {
            Some(c) => {
                let k = choose|k: int|
                    0 <= k < rest.len() && #[trigger] rest[k] == c && mask.solid.contains(
                        (c.0 as int, c.1 as int),
                    ) && forall|j: int|
                        0 <= j < k ==> !mask.solid.contains(
                            ((#[trigger] rest[j]).0 as int, rest[j].1 as int),
                        );
                assert(points[k + 1] == rest[k]);
                assert forall|j: int| 0 <= j < k + 1 implies !mask.solid.contains(
                    ((#[trigger] points[j]).0 as int, points[j].1 as int),
                ) by {
                    if j > 0 {
                        assert(points[j] == rest[j - 1]);
                    }
                }
            },
            None => {
                assert forall|j: int| 0 <= j < points.len() implies !mask.solid.contains(
                    ((#[trigger] points[j]).0 as int, points[j].1 as int),
                ) by {
                    if j > 0 {
                        assert(points[j] == rest[j - 1]);
                    }
                }
            },
        }
    }
}

impl Terrain {
    /// The first of `points` that is a solid cell, if there is one.
    pub fn first_solid_of(&self, points: &Vec<(i32, i32)>) -> (hit: Option<(i32, i32)>)
        ensures
            hit == first_solid(self@, points@),
    {
        let mut i: usize = points.len();
        let mut hit: Option<(i32, i32)> = None;
        assert(points@.subrange(i as int, points@.len() as int) =~= Seq::<(i32, i32)>::empty());
        while i > 0
            invariant
                i <= points.len(),
                hit == first_solid(self@, points@.subrange(i as int, points@.len() as int)),
            decreases i,
        {
            i -= 1;
            let ghost tail = points@.subrange(i as int, points@.len() as int);
            assert(tail[0] == points@[i as int]);
            assert(tail.subrange(1, tail.len() as int) =~= points@.subrange(
                i as int + 1,
                points@.len() as int,
            ));
            let p: (i32, i32) = points[i];
            if self.is_solid(p.0 as i64, p.1 as i64) {
                hit = Some(p);
            }
        }
        assert(points@.subrange(0, points@.len() as int) =~= points@);
        hit
    }

    /// The first solid cell on the straight line from `start` to `end`,
    /// both ends included, if the line meets one. An end that lies further
    /// out than `CELL_LIMIT` is taken back to the nearest cell within it,
    /// far outside every terrain.
    pub fn line_collides(&self, start: (i32, i32), end: (i32, i32)) -> (hit: Option<(i32, i32)>)
        ensures
            hit == first_solid(
                self@,
                line_points(drawn(start.0), drawn(start.1), drawn(end.0), drawn(end.1)),
            ),
            self@.solid.contains((start.0 as int, start.1 as int)) ==> hit == Some(start),
    {
        self.recall_extent();
        let points: Vec<(i32, i32)> = bresenham(
            nearest_drawable(start.0),
            nearest_drawable(start.1),
            nearest_drawable(end.0),
            nearest_drawable(end.1),
        );
        self.first_solid_of(&points)
    }
}

} // verus!
