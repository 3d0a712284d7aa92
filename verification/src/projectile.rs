//! Projectiles: what they carry, and what a flight ends in.

use crate::geom::BoundingBox;
use crate::physics::Position;
use vstd::prelude::*;

verus! {

/// The health that a projectile takes from the unit it hits.
#[derive(Clone, Copy, Debug, PartialEq, Eq, Structural)]
pub struct Damage(pub u32);

/// The number of frames for which a fresh projectile hits nothing, so
/// that it gets clear of the turret that fired it.
#[derive(Clone, Copy, Debug, PartialEq, Eq, Structural)]
pub struct IgnoreCollision(pub u32);

/// A ballistic body: the radius of the crater that it leaves in the
/// terrain, in cells, and the place where it stood a frame ago.
#[derive(Clone, Copy, Debug, PartialEq, Eq, Structural)]
pub struct Projectile {
    pub blast: u32,
    pub from: Position,
}

/// Marks a projectile that is drawn turned into the direction of its
/// flight.
#[derive(Clone, Copy, Debug, PartialEq, Eq, Structural)]
pub struct Arrow;

/// What a projectile has run into in one frame.
#[derive(Clone, Copy, Debug, PartialEq, Eq, Structural)]
pub enum Impact {
    /// Nothing.
    Miss,
    /// The unit with this id.
    Unit(usize),
    /// The terrain, at this cell.
    Terrain(i32, i32),
}

/// A box together with the entity that it belongs to.
#[derive(Clone, Copy, Debug, PartialEq, Eq, Structural)]
pub struct Target {
    pub id: usize,
    pub bounds: BoundingBox,
}

impl IgnoreCollision {
    /// Whether collisions are still ignored.
    pub open spec fn active(self) -> bool {
        self.0 > 0
    }

    /// The count after one more frame.
    pub open spec fn aged(self) -> IgnoreCollision {
        IgnoreCollision(
            if self.0 > 0 {
                (self.0 - 1) as u32
            } else {
                0
            },
        )
    }

    /// Whether collisions are still ignored.
    pub fn is_active(&self) -> (b: bool)
        ensures
            b == self.active(),
    {
        self.0 > 0
    }

    /// The count after one more frame.
    pub fn age(&self) -> (next: IgnoreCollision)
        ensures
            next == self.aged(),
    {
        IgnoreCollision(
            if self.0 > 0 {
                self.0 - 1
            } else {
                0
            },
        )
    }
}

/// What a flight ends in: nothing while collisions are ignored; else the
/// unit that was hit, if any; else the terrain cell that was hit, if any.
pub open spec fn resolved(
    ignoring: bool,
    unit_hit: Option<usize>,
    terrain_hit: Option<(i32, i32)>,
) -> Impact {
    if ignoring {
        Impact::Miss
    } else if let Some(id) = unit_hit {
        Impact::Unit(id)
    } else if let Some(cell) = terrain_hit {
        Impact::Terrain(cell.0, cell.1)
    } else {
        Impact::Miss
    }
}

/// What a flight ends in.
pub fn resolve(ignoring: bool, unit_hit: Option<usize>, terrain_hit: Option<(i32, i32)>) -> (impact:
    Impact)
    ensures
        impact == resolved(ignoring, unit_hit, terrain_hit),
{
    if ignoring {
        return Impact::Miss;
    }
    match unit_hit {
        Some(id) => Impact::Unit(id),
        None => match terrain_hit {
            Some(cell) => Impact::Terrain(cell.0, cell.1),
            None => Impact::Miss,
        },
    }
}

/// The place in `targets` of the first box that overlaps `probe`, if there
/// is one.
pub open spec fn first_overlap(targets: Seq<Target>, probe: BoundingBox) -> Option<int>
    decreases targets.len(),
{
    if targets.len() == 0 {
        None
    } else if targets[0].bounds.overlaps_spec(probe) {
        Some(0int)
    } else {
        match first_overlap(targets.subrange(1, targets.len() as int), probe) {
            Some(k) => Some(k + 1),
            None => None,
        }
    }
}

/// What `first_overlap` finds is the lowest place whose box overlaps.
pub proof fn lemma_first_overlap(targets: Seq<Target>, probe: BoundingBox)
    ensures
        match first_overlap(targets, probe) {
            Some(k) => 0 <= k < targets.len() && targets[k].bounds.overlaps_spec(probe)
                && forall|j: int| 0 <= j < k ==> !(#[trigger] targets[j]).bounds.overlaps_spec(probe),
            None => forall|j: int|
                0 <= j < targets.len() ==> !(#[trigger] targets[j]).bounds.overlaps_spec(probe),
        },
    decreases targets.len(),
{
    if targets.len() > 0 && !targets[0].bounds.overlaps_spec(probe) {
        let rest = targets.subrange(1, targets.len() as int);
        lemma_first_overlap(rest, probe);
        match first_overlap(rest, probe) {
            Some(k) => {
                assert(rest[k] == targets[k + 1]);
                assert forall|j: int| 0 <= j < k + 1 implies !(#[trigger] targets[j]).bounds.overlaps_spec(
                    probe,
                ) by {
                    if j > 0 {
                        assert(rest[j - 1] == targets[j]);
                    }
                }
            },
            None => {
                assert forall|j: int| 0 <= j < targets.len() implies !(#[trigger] targets[j]).bounds.overlaps_spec(
                    probe,
                ) by {
                    if j > 0 {
                        assert(rest[j - 1] == targets[j]);
                    }
                }
            },
        }
    }
}

/// The entity whose box is the first in `targets` to overlap `probe`.
pub open spec fn hit_of(targets: Seq<Target>, probe: BoundingBox) -> Option<usize> {
    match first_overlap(targets, probe) {
        Some(k) => Some(targets[k].id),
        None => None,
    }
}

/// The entity whose box is the first in `targets` to overlap `probe`.
pub fn first_hit(targets: &Vec<Target>, probe: &BoundingBox) -> (hit: Option<usize>)
    ensures
        hit == hit_of(targets@, *probe),
{
    let mut i: usize = 0;
    while i < targets.len()
        invariant
            i <= targets.len(),
            forall|j: int| 0 <= j < i ==> !(#[trigger] targets[j]).bounds.overlaps_spec(*probe),
        decreases targets.len() - i,
    {
        if targets[i].bounds.overlaps(probe) {
            proof {
                lemma_first_overlap(targets@, *probe);
            }
            return Some(targets[i].id);
        }
        i += 1;
    }
    proof {
        lemma_first_overlap(targets@, *probe);
    }
    None
}

} // verus!
