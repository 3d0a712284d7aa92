//! What holds of deferred destruction, and of the requests to carve and to
//! collapse: what is queued for removal is gone when the frame is over, and
//! each request is served in the frame that finds it, once.

use crate::frame::{framed, ran};
use crate::schedule::{has_system, StageView, System};
use crate::world::{Spawn, WorldView};
use vstd::prelude::*;

verus! {

/// Whether the entity `id` carries a request to carve or to collapse.
pub open spec fn requests(w: WorldView, id: usize) -> bool {
    w.masks.dom().contains(id) || w.collapses.dom().contains(id)
}

/// Whether `later` is a world of the same frame as `earlier`, further on:
/// the same entities carry the same requests, and whatever was queued for
/// removal still is.
pub open spec fn further_on(earlier: WorldView, later: WorldView) -> bool {
    &&& later.next_id == earlier.next_id
    &&& later.masks == earlier.masks
    &&& later.collapses == earlier.collapses
    &&& forall|k: usize| #[trigger] earlier.removals.contains(k) ==> later.removals.contains(k)
}

proof fn lemma_push_keeps(s: Seq<usize>, added: usize, k: usize)
    ensures
        s.push(added).contains(added),
        s.contains(k) ==> s.push(added).contains(k),
{
    assert(s.push(added)[s.len() as int] == added);
    if s.contains(k) {
        let i = choose|i: int| 0 <= i < s.len() && s[i] == k;
        assert(s.push(added)[i] == k);
    }
}

proof fn lemma_struck_keeps(w: WorldView, target: usize, amount: u32, k: usize)
    ensures
        w.removals.contains(k) ==> w.struck(target, amount).removals.contains(k),
{
    lemma_push_keeps(w.removals, target, k);
}

/// What a system does to an entity takes nothing out of the queue of
/// removals, and leaves the requests with the entities that carry them.
pub proof fn lemma_step_goes_further(w: WorldView, system: System, id: usize)
    ensures
        further_on(w, w.step(system, id)),
        system == System::TerrainCollapse && requests(w, id) ==> w.step(system, id).removals.contains(
            id,
        ),
{
    let after = w.step(system, id);
    assert forall|k: usize| #[trigger] w.removals.contains(k) implies after.removals.contains(
        k,
    ) by {
        lemma_push_keeps(w.removals, id, k);
        match system {
            System::ProjectileCollision => {
                if w.positions.dom().contains(id) && w.projectiles.dom().contains(id)
                    && w.boxes.dom().contains(id) {
                    let hit = crate::projectile::hit_of(
                        w.bodies(),
                        w.boxes[id].placed(w.positions[id]),
                    );
                    if hit is Some {
                        let hurt = w.struck(hit.unwrap(), w.payload(id));
                        lemma_struck_keeps(w, hit.unwrap(), w.payload(id), k);
                        lemma_push_keeps(hurt.removals, id, k);
                    }
                }
            },
            System::Melee => {
                if w.is_fighter(id) && w.melees.dom().contains(id) {
                    let opponent = w.opponent_of(id);
                    if opponent is Some {
                        let m = w.melees[id];
                        let timed = WorldView {
                            melees: w.melees.insert(
                                id,
                                crate::unit::Melee {
                                    damage: m.damage,
                                    cooldown: m.cooldown.ticked(w.delta, true),
                                },
                            ),
                            ..w
                        };
                        lemma_struck_keeps(timed, opponent.unwrap(), m.damage, k);
                    }
                }
            },
            _ => {},
        }
    }
    lemma_push_keeps(w.removals, id, id);
}

/// A visit of a system to the entities goes further on in the frame; that
/// of the terrain system queues every entity below `upto` that carries a
/// request.
pub proof fn lemma_sweep_goes_further(w: WorldView, system: System, upto: nat, id: usize)
    ensures
        further_on(w, w.visited(system, upto)),
        system == System::TerrainCollapse && requests(w, id) && id < upto ==> w.visited(
            system,
            upto,
        ).removals.contains(id),
    decreases upto,
{
    if upto > 0 {
        let before = w.visited(system, (upto - 1) as nat);
        lemma_sweep_goes_further(w, system, (upto - 1) as nat, id);
        lemma_step_goes_further(before, system, (upto - 1) as usize);
    }
}

/// Whatever world a system leaves is further on in the frame; the terrain
/// system leaves every entity that carries a request queued for removal.
pub proof fn lemma_run_goes_further(w: WorldView, system: System, after: WorldView, id: usize)
    requires
        w.outcome(system, after),
    ensures
        further_on(w, after),
        system == System::TerrainCollapse && requests(w, id) && id < w.next_id
            ==> after.removals.contains(id),
{
    lemma_sweep_goes_further(w, system, w.next_id as nat, id);
}

/// Whatever world the first `upto` systems of a schedule leave is further
/// on in the frame; once the terrain system has run, every entity that
/// carries a request is queued for removal.
pub proof fn lemma_systems_go_further(
    schedule: Seq<StageView>,
    upto: nat,
    start: WorldView,
    end: WorldView,
    at: int,
    id: usize,
)
    requires
        ran(schedule, upto, start, end),
        upto <= schedule.len(),
    ensures
        further_on(start, end),
        0 <= at < upto && schedule[at].system == System::TerrainCollapse && requests(start, id)
            && id < start.next_id ==> end.removals.contains(id),
    decreases upto,
{
    if upto > 0 {
        let mid = choose|mid: WorldView|
            ran(schedule, (upto - 1) as nat, start, mid) && #[trigger] mid.outcome(
                schedule[upto - 1].system,
                end,
            );
        lemma_systems_go_further(schedule, (upto - 1) as nat, start, mid, at, id);
        lemma_run_goes_further(mid, schedule[upto - 1].system, end, id);
    }
}

/// An entity that is erased has no component left, and no other entity
/// loses or gains one.
pub proof fn lemma_erased_carries_nothing(w: WorldView, id: usize, other: usize)
    ensures
        !w.erased(id).carries(id),
        other != id ==> w.erased(id).carries(other) == w.carries(other),
        w.erased(id).next_id == w.next_id,
{
}

/// Once the first `upto` of the queue of removals are erased, none of
/// them has a component left.
pub proof fn lemma_removals_erase(w: WorldView, ids: Seq<usize>, upto: nat, k: int)
    requires
        0 <= k < upto <= ids.len(),
    ensures
        !w.erased_all(ids, upto).carries(ids[k]),
        w.erased_all(ids, upto).next_id == w.next_id,
        w.erased_all(ids, upto).spawns == w.spawns,
    decreases upto,
{
    lemma_erasing_keeps_count(w, ids, upto);
    let before = w.erased_all(ids, (upto - 1) as nat);
    if k < upto - 1 {
        lemma_removals_erase(w, ids, (upto - 1) as nat, k);
        lemma_erased_carries_nothing(before, ids[upto - 1], ids[k]);
    } else {
        lemma_erased_carries_nothing(before, ids[upto - 1], ids[k]);
    }
}

proof fn lemma_erasing_keeps_count(w: WorldView, ids: Seq<usize>, upto: nat)
    requires
        upto <= ids.len(),
    ensures
        w.erased_all(ids, upto).next_id == w.next_id,
        w.erased_all(ids, upto).spawns == w.spawns,
    decreases upto,
{
    if upto > 0 {
        lemma_erasing_keeps_count(w, ids, (upto - 1) as nat);
    }
}

/// The entities that are created get ids that no entity had before: an
/// entity without components gets none when others are created.
pub proof fn lemma_spawns_use_new_ids(w: WorldView, spawns: Seq<Spawn>, upto: nat, id: usize)
    requires
        id < w.next_id,
        !w.carries(id),
        upto <= spawns.len(),
    ensures
        !w.spawned_all(spawns, upto).carries(id),
        w.next_id <= w.spawned_all(spawns, upto).next_id,
    decreases upto,
{
    if upto > 0 {
        lemma_spawns_use_new_ids(w, spawns, (upto - 1) as nat, id);
    }
}

/// Destruction is deferred and then complete: an entity that is queued
/// for removal when a frame begins has no component left when the frame
/// is over.
pub proof fn lemma_queued_is_destroyed(
    schedule: Seq<StageView>,
    start: WorldView,
    end: WorldView,
    id: usize,
)
    requires
        framed(schedule, start, end),
        id < start.next_id,
        start.removals.contains(id),
    ensures
        !end.carries(id),
{
    let done = choose|done: WorldView| #[trigger]
        ran(schedule, schedule.len(), start, done) && end == done.maintained();
    lemma_systems_go_further(schedule, schedule.len(), start, done, 0, id);
    lemma_destroyed_by_maintenance(done, id);
}

/// Applying the buffer destroys what is queued for removal.
pub proof fn lemma_destroyed_by_maintenance(done: WorldView, id: usize)
    requires
        id < done.next_id,
        done.removals.contains(id),
    ensures
        !done.maintained().carries(id),
{
    let k = choose|k: int| 0 <= k < done.removals.len() && done.removals[k] == id;
    let cleared = WorldView { spawns: Seq::empty(), removals: Seq::empty(), ..done };
    lemma_removals_erase(cleared, done.removals, done.removals.len(), k);
    lemma_spawns_use_new_ids(
        cleared.erased_all(done.removals, done.removals.len()),
        done.spawns,
        done.spawns.len(),
        id,
    );
}

/// A request is served once: after a frame whose schedule holds the
/// terrain system, no entity that carried a request when the frame began
/// carries one still.
pub proof fn lemma_requests_served_once(
    schedule: Seq<StageView>,
    start: WorldView,
    end: WorldView,
    id: usize,
)
    requires
        framed(schedule, start, end),
        has_system(schedule, System::TerrainCollapse),
        id < start.next_id,
        requests(start, id),
    ensures
        !requests(end, id),
{
    let done = choose|done: WorldView| #[trigger]
        ran(schedule, schedule.len(), start, done) && end == done.maintained();
    let at = choose|at: int|
        0 <= at < schedule.len() && (#[trigger] schedule[at]).system == System::TerrainCollapse;
    lemma_systems_go_further(schedule, schedule.len(), start, done, at, id);
    lemma_destroyed_by_maintenance(done, id);
}

} // verus!
