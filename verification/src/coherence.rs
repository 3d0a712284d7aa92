//! What holds of a world that is put together rightly, and is kept by
//! everything that a frame does.

use crate::frame::{framed, ran};
use crate::level::{gun, recruit, standing_in, Purchase, ENTRY_COLUMN};
use crate::schedule::{StageView, System};
use crate::turret::TurretOffset;
use crate::unit::Faction;
use crate::world::{Spawn, World, WorldView};
use vstd::prelude::*;

verus! {

impl WorldView {
    /// Whether the entity `id` has any component.
    pub open spec fn carries(self, id: usize) -> bool {
        ||| self.positions.dom().contains(id)
        ||| self.velocities.dom().contains(id)
        ||| self.boxes.dom().contains(id)
        ||| self.states.dom().contains(id)
        ||| self.healths.dom().contains(id)
        ||| self.destinations.dom().contains(id)
        ||| self.factions.dom().contains(id)
        ||| self.walks.dom().contains(id)
        ||| self.melees.dom().contains(id)
        ||| self.turrets.dom().contains(id)
        ||| self.turret_offsets.dom().contains(id)
        ||| self.projectiles.dom().contains(id)
        ||| self.damages.dom().contains(id)
        ||| self.ignores.dom().contains(id)
        ||| self.arrows.dom().contains(id)
        ||| self.masks.dom().contains(id)
        ||| self.collapses.dom().contains(id)
        ||| self.particles.dom().contains(id)
    }

    /// Whether the entity `id` has a component that makes no sense without
    /// a place: a velocity, a shape, a state, or the mark of a projectile,
    /// a turret or a piece of debris.
    pub open spec fn needs_place(self, id: usize) -> bool {
        ||| self.velocities.dom().contains(id)
        ||| self.boxes.dom().contains(id)
        ||| self.states.dom().contains(id)
        ||| self.projectiles.dom().contains(id)
        ||| self.turrets.dom().contains(id)
        ||| self.particles.dom().contains(id)
    }

    /// Whether the world is put together rightly: only entities have
    /// components, whatever needs a place has one, and every unit has
    /// health and a side.
    pub open spec fn coherent(self) -> bool {
        &&& forall|id: usize| #[trigger] self.carries(id) ==> id < self.next_id
        &&& forall|id: usize| #[trigger] self.needs_place(id) ==> self.positions.dom().contains(id)
        &&& forall|id: usize| #[trigger]
            self.states.dom().contains(id) ==> self.healths.dom().contains(id)
                && self.factions.dom().contains(id)
    }
}

/// What a system does to an entity leaves a coherent world coherent.
pub proof fn lemma_step_keeps_coherence(w: WorldView, system: System, id: usize)
    requires
        w.coherent(),
    ensures
        w.step(system, id).coherent(),
{
    let after = w.step(system, id);
    assert forall|k: usize| #[trigger] after.carries(k) implies w.carries(k) by {}
    assert forall|k: usize| #[trigger] after.needs_place(k) implies w.needs_place(k) by {}
    assert forall|k: usize| #[trigger] after.states.dom().contains(k) implies w.states.dom().contains(
        k,
    ) by {}
    assert forall|k: usize| #[trigger] w.positions.dom().contains(k) implies after.positions.dom().contains(
        k,
    ) by {}
    assert forall|k: usize| #[trigger]
        w.healths.dom().contains(k) implies after.healths.dom().contains(k) by {}
}

/// A visit of a system to the entities leaves a coherent world coherent.
pub proof fn lemma_sweep_keeps_coherence(w: WorldView, system: System, upto: nat)
    requires
        w.coherent(),
    ensures
        w.visited(system, upto).coherent(),
    decreases upto,
{
    if upto > 0 {
        lemma_sweep_keeps_coherence(w, system, (upto - 1) as nat);
        lemma_step_keeps_coherence(
            w.visited(system, (upto - 1) as nat),
            system,
            (upto - 1) as usize,
        );
    }
}

/// Whatever world a system leaves of a coherent world is coherent.
pub proof fn lemma_run_keeps_coherence(w: WorldView, system: System, after: WorldView)
    requires
        w.coherent(),
        w.outcome(system, after),
    ensures
        after.coherent(),
{
    lemma_sweep_keeps_coherence(w, system, w.next_id as nat);
    let served = w.swept(system);
    assert forall|k: usize| #[trigger] after.carries(k) implies served.carries(k) by {}
    assert forall|k: usize| #[trigger] after.needs_place(k) implies served.needs_place(k) by {}
}

/// Creating and erasing an entity leave a coherent world coherent.
pub proof fn lemma_spawn_and_erase_keep_coherence(w: WorldView, spawn: Spawn, id: usize)
    requires
        w.coherent(),
    ensures
        w.spawned(spawn).coherent(),
        w.erased(id).coherent(),
{
    let made = w.spawned(spawn);
    assert forall|k: usize| #[trigger] made.carries(k) implies k < made.next_id by {
        if k != w.next_id || made == w {
            assert(w.carries(k));
        }
    }
    assert(!w.carries(w.next_id));
    assert forall|k: usize| #[trigger] made.needs_place(k) implies made.positions.dom().contains(
        k,
    ) by {
        if k != w.next_id {
            assert(w.needs_place(k));
        } else if made == w {
            assert(w.needs_place(k));
        }
    }
    assert forall|k: usize| #[trigger]
        made.states.dom().contains(k) implies made.healths.dom().contains(k)
        && made.factions.dom().contains(k) by {
        if k != w.next_id || made == w {
            assert(w.states.dom().contains(k));
        }
    }
    let gone = w.erased(id);
    assert forall|k: usize| #[trigger] gone.carries(k) implies k < gone.next_id by {
        assert(w.carries(k));
    }
    assert forall|k: usize| #[trigger] gone.needs_place(k) implies gone.positions.dom().contains(
        k,
    ) by {
        assert(w.needs_place(k));
    }
    assert forall|k: usize| #[trigger]
        gone.states.dom().contains(k) implies gone.healths.dom().contains(k)
        && gone.factions.dom().contains(k) by {
        assert(w.states.dom().contains(k));
    }
}

proof fn lemma_erased_all_coherent(w: WorldView, ids: Seq<usize>, upto: nat)
    requires
        w.coherent(),
        upto <= ids.len(),
    ensures
        w.erased_all(ids, upto).coherent(),
    decreases upto,
{
    if upto > 0 {
        lemma_erased_all_coherent(w, ids, (upto - 1) as nat);
        lemma_spawn_and_erase_keep_coherence(
            w.erased_all(ids, (upto - 1) as nat),
            Spawn::Collapse,
            ids[upto - 1],
        );
    }
}

proof fn lemma_spawned_all_coherent(w: WorldView, spawns: Seq<Spawn>, upto: nat)
    requires
        w.coherent(),
        upto <= spawns.len(),
    ensures
        w.spawned_all(spawns, upto).coherent(),
    decreases upto,
{
    if upto > 0 {
        lemma_spawned_all_coherent(w, spawns, (upto - 1) as nat);
        lemma_spawn_and_erase_keep_coherence(
            w.spawned_all(spawns, (upto - 1) as nat),
            spawns[upto - 1],
            0,
        );
    }
}

/// Applying the buffer leaves a coherent world coherent.
pub proof fn lemma_maintain_keeps_coherence(w: WorldView)
    requires
        w.coherent(),
    ensures
        w.maintained().coherent(),
{
    let cleared = WorldView { spawns: Seq::empty(), removals: Seq::empty(), ..w };
    assert forall|k: usize| #[trigger] cleared.carries(k) implies k < cleared.next_id by {
        assert(w.carries(k));
    }
    assert forall|k: usize| #[trigger] cleared.needs_place(k) implies cleared.positions.dom().contains(
        k,
    ) by {
        assert(w.needs_place(k));
    }
    assert(cleared.coherent());
    lemma_erased_all_coherent(cleared, w.removals, w.removals.len());
    lemma_spawned_all_coherent(
        cleared.erased_all(w.removals, w.removals.len()),
        w.spawns,
        w.spawns.len(),
    );
}

/// Whatever world the first `upto` systems of a schedule leave of a
/// coherent world is coherent.
pub proof fn lemma_systems_keep_coherence(
    schedule: Seq<StageView>,
    upto: nat,
    start: WorldView,
    end: WorldView,
)
    requires
        start.coherent(),
        ran(schedule, upto, start, end),
    ensures
        end.coherent(),
    decreases upto,
{
    if upto > 0 {
        let mid = choose|mid: WorldView|
            ran(schedule, (upto - 1) as nat, start, mid) && #[trigger] mid.outcome(
                schedule[upto - 1].system,
                end,
            );
        lemma_systems_keep_coherence(schedule, (upto - 1) as nat, start, mid);
        lemma_run_keeps_coherence(mid, schedule[upto - 1].system, end);
    }
}

/// A frame leaves a coherent world coherent.
pub proof fn lemma_frame_keeps_coherence(schedule: Seq<StageView>, start: WorldView, end: WorldView)
    requires
        start.coherent(),
        framed(schedule, start, end),
    ensures
        end.coherent(),
{
    let done = choose|done: WorldView| #[trigger]
        ran(schedule, schedule.len(), start, done) && end == done.maintained();
    lemma_systems_keep_coherence(schedule, schedule.len(), start, done);
    lemma_maintain_keeps_coherence(done);
}

/// A purchase, an invader and a new turret leave a coherent world
/// coherent.
pub proof fn lemma_setup_keeps_coherence(w: WorldView, what: Purchase, column: int)
    requires
        w.coherent(),
    ensures
        w.bought(what).coherent(),
        w.invaded().coherent(),
        w.fortified(column).coherent(),
{
    let unit = recruit(
        what,
        Faction::Ally,
        standing_in(w.terrain, ENTRY_COLUMN as int),
        w.goal_column(),
    );
    lemma_spawn_and_erase_keep_coherence(w, unit, 0);
    lemma_spawn_and_erase_keep_coherence(
        w,
        recruit(
            Purchase::Soldier,
            Faction::Enemy,
            standing_in(w.terrain, w.goal_column()),
            ENTRY_COLUMN as int,
        ),
        0,
    );
    let made = w.spawned(unit);
    let armed = w.bought(what);
    assert forall|k: usize| #[trigger] armed.carries(k) implies made.carries(k) by {}
    assert forall|k: usize| #[trigger] armed.needs_place(k) implies made.needs_place(k) by {}
    lemma_spawn_and_erase_keep_coherence(
        w,
        Spawn::Turret {
            position: standing_in(w.terrain, column),
            offset: TurretOffset(0, -10000i64),
            turret: gun(),
        },
        0,
    );
}

impl World {
    /// Whether no id from `next_id` up has a component.
    fn none_beyond(&self) -> (b: bool)
        ensures
            b == (forall|id: usize| #[trigger] self@.carries(id) ==> id < self@.next_id),
    {
        let n: usize = self.next_id;
        let stray_positions: Option<usize> = self.positions.first_from(n);
        let stray_velocities: Option<usize> = self.velocities.first_from(n);
        let stray_boxes: Option<usize> = self.boxes.first_from(n);
        let stray_states: Option<usize> = self.states.first_from(n);
        let stray_healths: Option<usize> = self.healths.first_from(n);
        let stray_destinations: Option<usize> = self.destinations.first_from(n);
        let stray_factions: Option<usize> = self.factions.first_from(n);
        let stray_walks: Option<usize> = self.walks.first_from(n);
        let stray_melees: Option<usize> = self.melees.first_from(n);
        let stray_turrets: Option<usize> = self.turrets.first_from(n);
        let stray_turret_offsets: Option<usize> = self.turret_offsets.first_from(n);
        let stray_projectiles: Option<usize> = self.projectiles.first_from(n);
        let stray_damages: Option<usize> = self.damages.first_from(n);
        let stray_ignores: Option<usize> = self.ignores.first_from(n);
        let stray_arrows: Option<usize> = self.arrows.first_from(n);
        let stray_masks: Option<usize> = self.masks.first_from(n);
        let stray_collapses: Option<usize> = self.collapses.first_from(n);
        let stray_particles: Option<usize> = self.particles.first_from(n);
        let clear: bool = stray_positions.is_none()
            && stray_velocities.is_none()
            && stray_boxes.is_none()
            && stray_states.is_none()
            && stray_healths.is_none()
            && stray_destinations.is_none()
            && stray_factions.is_none()
            && stray_walks.is_none()
            && stray_melees.is_none()
            && stray_turrets.is_none()
            && stray_turret_offsets.is_none()
            && stray_projectiles.is_none()
            && stray_damages.is_none()
            && stray_ignores.is_none()
            && stray_arrows.is_none()
            && stray_masks.is_none()
            && stray_collapses.is_none()
            && stray_particles.is_none();
        proof {
            if !clear {
                if stray_positions is Some {
                    assert(self@.carries(stray_positions.unwrap()));
                }
                if stray_velocities is Some {
                    assert(self@.carries(stray_velocities.unwrap()));
                }
                if stray_boxes is Some {
                    assert(self@.carries(stray_boxes.unwrap()));
                }
                if stray_states is Some {
                    assert(self@.carries(stray_states.unwrap()));
                }
                if stray_healths is Some {
                    assert(self@.carries(stray_healths.unwrap()));
                }
                if stray_destinations is Some {
                    assert(self@.carries(stray_destinations.unwrap()));
                }
                if stray_factions is Some {
                    assert(self@.carries(stray_factions.unwrap()));
                }
                if stray_walks is Some {
                    assert(self@.carries(stray_walks.unwrap()));
                }
                if stray_melees is Some {
                    assert(self@.carries(stray_melees.unwrap()));
                }
                if stray_turrets is Some {
                    assert(self@.carries(stray_turrets.unwrap()));
                }
                if stray_turret_offsets is Some {
                    assert(self@.carries(stray_turret_offsets.unwrap()));
                }
                if stray_projectiles is Some {
                    assert(self@.carries(stray_projectiles.unwrap()));
                }
                if stray_damages is Some {
                    assert(self@.carries(stray_damages.unwrap()));
                }
                if stray_ignores is Some {
                    assert(self@.carries(stray_ignores.unwrap()));
                }
                if stray_arrows is Some {
                    assert(self@.carries(stray_arrows.unwrap()));
                }
                if stray_masks is Some {
                    assert(self@.carries(stray_masks.unwrap()));
                }
                if stray_collapses is Some {
                    assert(self@.carries(stray_collapses.unwrap()));
                }
                if stray_particles is Some {
                    assert(self@.carries(stray_particles.unwrap()));
                }
            }
        }
        clear
    }

    /// Whether the world is put together rightly.
    pub fn is_coherent(&self) -> (b: bool)
        ensures
            b == self@.coherent(),
    {
        if !self.none_beyond() {
            return false;
        }
        let mut id: usize = 0;
        while id < self.next_id
            invariant
                id <= self.next_id,
                forall|k: usize| #[trigger] self@.carries(k) ==> k < self@.next_id,
                forall|k: usize|
                    k < id && #[trigger] self@.needs_place(k) ==> self@.positions.dom().contains(k),
                forall|k: usize|
                    k < id && #[trigger] self@.states.dom().contains(k)
                        ==> self@.healths.dom().contains(k) && self@.factions.dom().contains(k),
            decreases self.next_id - id,
        {
            let unit: bool = self.states.contains(id);
            let needs: bool = self.velocities.contains(id) || self.boxes.contains(id) || unit
                || self.projectiles.contains(id) || self.turrets.contains(id)
                || self.particles.contains(id);
            if needs && !self.positions.contains(id) {
                assert(self@.needs_place(id));
                return false;
            }
            if unit && !(self.healths.contains(id) && self.factions.contains(id)) {
                assert(self@.states.dom().contains(id));
                return false;
            }
            id += 1;
        }
        proof {
            assert forall|k: usize| #[trigger] self@.needs_place(k) implies self@.positions.dom().contains(
                k,
            ) by {
                assert(self@.carries(k));
            }
            assert forall|k: usize| #[trigger]
                self@.states.dom().contains(k) implies self@.healths.dom().contains(k)
                && self@.factions.dom().contains(k) by {
                assert(self@.carries(k));
            }
        }
        true
    }
}

} // verus!
