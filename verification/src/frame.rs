//! A frame: the systems run in the order of the schedule, then the
//! buffered creations and destructions are applied.

use crate::debris::{scatter, scattered};
use crate::physics::{DeltaTime, Position, Velocity};
use crate::schedule::{Schedule, StageView, System};
use crate::terrain::lists_loose;
use crate::world::{Spawn, World, WorldView};
use vstd::prelude::*;

verus! {

/// The debris to create for `bodies`, one entity for each, in the same
/// order.
pub open spec fn debris_spawns(bodies: Seq<(Position, Velocity)>) -> Seq<Spawn> {
    Seq::new(bodies.len(), |i: int| Spawn::Debris { position: bodies[i].0, velocity: bodies[i].1 })
}

impl WorldView {
    /// Whether an entity below `upto` carries a request to carve or to
    /// collapse.
    pub open spec fn wants_collapse(self, upto: nat) -> bool
        decreases upto,
    {
        upto > 0 && (self.wants_collapse((upto - 1) as nat) || self.masks.dom().contains(
            (upto - 1) as usize,
        ) || self.collapses.dom().contains((upto - 1) as usize))
    }

    /// Whether `after` is a world that the terrain system can leave: every
    /// request is served, and where there was one the terrain has
    /// collapsed, and each cell that came loose is queued as one piece of
    /// debris, in the order of the cells, with a sideways speed that is
    /// not fixed beforehand. Without a request nothing collapses.
    pub open spec fn collapsed_into(self, after: WorldView) -> bool {
        let served = self.swept(System::TerrainCollapse);
        if self.wants_collapse(self.next_id as nat) {
            exists|cells: Seq<(usize, usize)>, bodies: Seq<(Position, Velocity)>|
                lists_loose(served.terrain, cells) && #[trigger] scattered(cells, bodies) && after
                    == (WorldView {
                    terrain: served.terrain.collapsed(),
                    spawns: served.spawns + debris_spawns(bodies),
                    ..served
                })
        } else {
            after == served
        }
    }

    /// The world in a frame of `nanos` nanoseconds.
    pub open spec fn with_delta(self, nanos: nat) -> WorldView {
        WorldView { delta: nanos, ..self }
    }

    /// Whether `after` is a world that the system `system` can leave.
    pub open spec fn outcome(self, system: System, after: WorldView) -> bool {
        if system == System::TerrainCollapse {
            self.collapsed_into(after)
        } else {
            after == self.swept(system)
        }
    }
}

/// Whether `end` is a world that the first `upto` systems of `schedule`,
/// run one after the other on `start`, can leave.
pub open spec fn ran(schedule: Seq<StageView>, upto: nat, start: WorldView, end: WorldView) -> bool
    decreases upto,
{
    if upto == 0 {
        end == start
    } else {
        exists|mid: WorldView|
            ran(schedule, (upto - 1) as nat, start, mid) && #[trigger] mid.outcome(
                schedule[upto - 1].system,
                end,
            )
    }
}

/// Whether `end` is a world that a frame can leave of `start`: every
/// system of `schedule` has run once, in the order of the schedule, and
/// after the last of them the buffered creations and destructions were
/// applied.
pub open spec fn framed(schedule: Seq<StageView>, start: WorldView, end: WorldView) -> bool {
    exists|done: WorldView| #[trigger]
        ran(schedule, schedule.len(), start, done) && end == done.maintained()
}

impl World {
    /// Whether an entity carries a request to carve or to collapse.
    pub fn wants_collapse(&self) -> (wanted: bool)
        ensures
            wanted == self@.wants_collapse(self@.next_id as nat),
    {
        let mut wanted: bool = false;
        let mut id: usize = 0;
        while id < self.next_id
            invariant
                id <= self.next_id,
                wanted == self@.wants_collapse(id as nat),
            decreases self.next_id - id,
        {
            if self.masks.contains(id) || self.collapses.contains(id) {
                wanted = true;
            }
            id += 1;
        }
        wanted
    }

    /// Serves the requests to carve and to collapse. Where there was one,
    /// the unsupported terrain collapses into debris.
    pub fn collapse_terrain(&mut self)
        ensures
            old(self)@.collapsed_into(final(self)@),
    {
        let wanted: bool = self.wants_collapse();
        self.sweep(System::TerrainCollapse);
        if wanted {
            let ghost served = self@;
            let cells = self.terrain.collapse();
            let bodies = scatter(&cells);
            let mut k: usize = 0;
            while k < bodies.len()
                invariant
                    k <= bodies.len(),
                    self@ == (WorldView {
                        terrain: served.terrain.collapsed(),
                        spawns: served.spawns + debris_spawns(bodies@.take(k as int)),
                        ..served
                    }),
                decreases bodies.len() - k,
            {
                let body: (Position, Velocity) = bodies[k];
                self.spawns.push(Spawn::Debris { position: body.0, velocity: body.1 });
                proof {
                    assert(self.spawns@ =~= served.spawns + debris_spawns(
                        bodies@.take(k as int + 1),
                    ));
                }
                k += 1;
            }
            proof {
                assert(bodies@.take(k as int) =~= bodies@);
                assert(scattered(cells@, bodies@));
            }
        }
    }

    /// Runs the system `system` once.
    pub fn run(&mut self, system: System)
        ensures
            old(self)@.outcome(system, final(self)@),
    {
        match system {
            System::TerrainCollapse => self.collapse_terrain(),
            other => self.sweep(other),
        }
    }

    /// Runs every system of the schedule once, in the order of the
    /// schedule, and then applies the buffered creations and destructions.
    pub fn dispatch(&mut self, schedule: &Schedule)
        ensures
            framed(schedule@, old(self)@, final(self)@),
    {
        let n: usize = schedule.len();
        let mut i: usize = 0;
        while i < n
            invariant
                i <= n,
                n == schedule@.len(),
                ran(schedule@, i as nat, old(self)@, self@),
            decreases n - i,
        {
            let ghost mid = self@;
            match schedule.system_at(i) {
                Some(system) => self.run(system),
                None => {},
            }
            proof {
                let up = (i + 1) as nat;
                assert(ran(schedule@, (up - 1) as nat, old(self)@, mid));
                assert(mid.outcome(schedule@[up - 1].system, self@));
                assert(ran(schedule@, up, old(self)@, self@));
            }
            i += 1;
        }
        let ghost done = self@;
        self.maintain();
        assert(ran(schedule@, schedule@.len(), old(self)@, done));
    }

    /// Advances the world by one frame of length `delta`.
    pub fn frame(&mut self, schedule: &Schedule, delta: DeltaTime)
        ensures
            framed(schedule@, old(self)@.with_delta(delta@), final(self)@),
    {
        self.delta = delta;
        self.dispatch(schedule);
    }
}

} // verus!
