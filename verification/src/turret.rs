//! Turrets: which target they pick, and how they aim.
//!
//! A turret aims every shot so that, in flight under gravity alone, it
//! would arrive at the target after one second: the launch velocity is the
//! displacement per second, less half of the gravity.

use crate::cadence::Cooldown;
use crate::physics::{
    add_saturating, div_toward_zero, saturate, saturate_wide, Gravity, Position, Velocity,
};
use vstd::prelude::*;

verus! {

/// A turret: its firing timer, how far it sees on each axis in world
/// units, and what its projectiles do.
#[derive(Clone, Copy, Debug, PartialEq, Eq, Structural)]
pub struct Turret {
    pub cooldown: Cooldown,
    pub range_x: u32,
    pub range_y: u32,
    pub damage: u32,
    pub blast: u32,
}

/// Where the barrel of a turret is, measured from its base.
#[derive(Clone, Copy, Debug, PartialEq, Eq, Structural)]
pub struct TurretOffset(pub i64, pub i64);

/// A unit that a turret may fire at.
#[derive(Clone, Copy, Debug, PartialEq, Eq, Structural)]
pub struct Candidate {
    pub id: usize,
    pub position: Position,
}

/// Whether `to` is within the reach `range_x`, `range_y` of `from`.
pub open spec fn in_range(from: Position, to: Position, range_x: u32, range_y: u32) -> bool {
    &&& -(range_x as int) <= to.x - from.x <= range_x as int
    &&& -(range_y as int) <= to.y - from.y <= range_y as int
}

/// The square of the distance between two places.
pub open spec fn distance_squared(from: Position, to: Position) -> int {
    (to.x - from.x) * (to.x - from.x) + (to.y - from.y) * (to.y - from.y)
}

/// Whether a turret at `from` takes `a` at least as readily as `b`: `a` is
/// nearer, or as near and of no higher id.
pub open spec fn preferred(from: Position, a: Candidate, b: Candidate) -> bool {
    let da = distance_squared(from, a.position);
    let db = distance_squared(from, b.position);
    da < db || (da == db && a.id <= b.id)
}

/// Whether a turret at `from` takes `a` rather than `b`: `a` is nearer, or
/// as near and of lower id.
pub open spec fn beats(from: Position, a: Candidate, b: Candidate) -> bool {
    let da = distance_squared(from, a.position);
    let db = distance_squared(from, b.position);
    da < db || (da == db && a.id < b.id)
}

/// The one to fire at among the first `upto` of `candidates`: the nearest
/// in range, and among equally near ones the one with the lowest id.
pub open spec fn best_upto(
    from: Position,
    range_x: u32,
    range_y: u32,
    candidates: Seq<Candidate>,
    upto: nat,
) -> Option<Candidate>
    decreases upto,
{
    if upto == 0 {
        None
    } else {
        let before = best_upto(from, range_x, range_y, candidates, (upto - 1) as nat);
        let c = candidates[upto - 1];
        if !in_range(from, c.position, range_x, range_y) {
            before
        } else {
            match before {
                None => Some(c),
                Some(b) => if beats(from, c, b) {
                    Some(c)
                } else {
                    Some(b)
                },
            }
        }
    }
}

/// The one to fire at among `candidates`, if any is in range.
pub open spec fn best(from: Position, range_x: u32, range_y: u32, candidates: Seq<Candidate>) -> Option<
    Candidate,
> {
    best_upto(from, range_x, range_y, candidates, candidates.len())
}

/// The target that is picked is a candidate in range, and no candidate in
/// range is nearer, or as near with a lower id. None is picked only when
/// no candidate is in range.
pub proof fn lemma_best_is_nearest(
    from: Position,
    range_x: u32,
    range_y: u32,
    candidates: Seq<Candidate>,
    upto: nat,
)
    requires
        upto <= candidates.len(),
    ensures
        match best_upto(from, range_x, range_y, candidates, upto) {
            Some(b) => {
                &&& in_range(from, b.position, range_x, range_y)
                &&& exists|k: int| 0 <= k < upto && #[trigger] candidates[k] == b
                &&& forall|j: int|
                    0 <= j < upto && in_range(
                        from,
                        (#[trigger] candidates[j]).position,
                        range_x,
                        range_y,
                    ) ==> preferred(from, b, candidates[j])
            },
            None => forall|j: int|
                0 <= j < upto ==> !in_range(
                    from,
                    (#[trigger] candidates[j]).position,
                    range_x,
                    range_y,
                ),
        },
    decreases upto,
{
    if upto > 0 {
        lemma_best_is_nearest(from, range_x, range_y, candidates, (upto - 1) as nat);
        let c = candidates[upto - 1];
        assert(candidates[upto - 1] == c);
        let before = best_upto(from, range_x, range_y, candidates, (upto - 1) as nat);
        match before {
            Some(b) => {
                let k = choose|k: int| 0 <= k < upto - 1 && #[trigger] candidates[k] == b;
                assert(candidates[k] == b);
            },
            None => {},
        }
    }
}

/// The launch velocity of a shot from `from` at `to`.
pub open spec fn aimed(from: Position, to: Position, g: Gravity) -> Velocity {
    Velocity {
        x: saturate(to.x - from.x) as i64,
        y: saturate(to.y - from.y - div_toward_zero(g.0 as int, 2)) as i64,
    }
}

impl TurretOffset {
    /// Where the barrel of a turret with its base at `base` is.
    pub open spec fn barrel_spec(self, base: Position) -> Position {
        Position { x: saturate(base.x + self.0) as i64, y: saturate(base.y + self.1) as i64 }
    }

    /// Where the barrel of a turret with its base at `base` is.
    pub fn barrel(&self, base: Position) -> (p: Position)
        ensures
            p == self.barrel_spec(base),
    {
        Position { x: add_saturating(base.x, self.0), y: add_saturating(base.y, self.1) }
    }
}

fn magnitude(v: i128) -> (m: u128)
    requires
        -0x1_0000_0000_0000_0000 <= v <= 0x1_0000_0000_0000_0000,
    ensures
        m == if v < 0 {
            -v
        } else {
            v as int
        },
{
    if v < 0 {
        (-v) as u128
    } else {
        v as u128
    }
}

/// Whether `to` is within the reach `range_x`, `range_y` of `from`.
pub fn within_range(from: Position, to: Position, range_x: u32, range_y: u32) -> (b: bool)
    ensures
        b == in_range(from, to, range_x, range_y),
{
    let dx: u128 = magnitude(to.x as i128 - from.x as i128);
    let dy: u128 = magnitude(to.y as i128 - from.y as i128);
    dx <= range_x as u128 && dy <= range_y as u128
}

/// The square of the distance between two places that are in range of one
/// another.
fn squared_distance(from: Position, to: Position, Ghost(range_x): Ghost<u32>, Ghost(range_y): Ghost<u32>) -> (d: u128)
    requires
        in_range(from, to, range_x, range_y),
    ensures
        d == distance_squared(from, to),
{
    let dx: u128 = magnitude(to.x as i128 - from.x as i128);
    let dy: u128 = magnitude(to.y as i128 - from.y as i128);
    assert(dx * dx <= 0xffff_ffff * 0xffff_ffff && dy * dy <= 0xffff_ffff * 0xffff_ffff && dx * dx
        == (to.x - from.x) * (to.x - from.x) && dy * dy == (to.y - from.y) * (to.y - from.y))
        by (nonlinear_arith)
        requires
            dx <= 0xffff_ffff,
            dy <= 0xffff_ffff,
            dx == to.x - from.x || dx == -(to.x - from.x),
            dy == to.y - from.y || dy == -(to.y - from.y),
    ;
    dx * dx + dy * dy
}

/// The candidate to fire at from `from`: the nearest one in range, and
/// among equally near ones the one with the lowest id. `None` when no
/// candidate is in range.
pub fn nearest_target(
    from: Position,
    range_x: u32,
    range_y: u32,
    candidates: &Vec<Candidate>,
) -> (target: Option<Candidate>)
    ensures
        target == best(from, range_x, range_y, candidates@),
{
    let mut found: Option<Candidate> = None;
    let mut found_distance: u128 = 0;
    let mut i: usize = 0;
    while i < candidates.len()
        invariant
            i <= candidates.len(),
            found == best_upto(from, range_x, range_y, candidates@, i as nat),
            found matches Some(b) ==> in_range(from, b.position, range_x, range_y)
                && found_distance == distance_squared(from, b.position),
        decreases candidates.len() - i,
    {
        let c: Candidate = candidates[i];
        if within_range(from, c.position, range_x, range_y) {
            let d: u128 = squared_distance(from, c.position, Ghost(range_x), Ghost(range_y));
            let better: bool = match found {
                None => true,
                Some(b) => d < found_distance || (d == found_distance && c.id < b.id),
            };
            if better {
                found = Some(c);
                found_distance = d;
            }
        }
        i += 1;
    }
    found
}

/// The launch velocity of a shot from `from` at `to`.
pub fn aim(from: Position, to: Position, g: Gravity) -> (v: Velocity)
    ensures
        v == aimed(from, to, g),
{
    let dx: i128 = to.x as i128 - from.x as i128;
    let half: i128 = if g.0 >= 0 {
        (g.0 as u64 / 2) as i128
    } else {
        -(((-(g.0 as i128)) as u128 / 2) as i128)
    };
    let dy: i128 = to.y as i128 - from.y as i128 - half;
    Velocity { x: saturate_wide(dx), y: saturate_wide(dy) }
}

} // verus!
