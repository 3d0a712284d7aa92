//! What each system does to one entity, and to all of them in a frame.
//!
//! A system visits the entities by rising id; what it does to one entity
//! is a function of the world as the entities before it have left it.

use crate::cadence::Cooldown;
use crate::line::{first_solid, line_points};
use crate::physics::{
    cell_of, integrate, integrated, saturate, travel, travelled, Position, Velocity,
};
use crate::projectile::{
    first_hit, hit_of, resolve, resolved, Damage, IgnoreCollision, Impact, Projectile,
};
use crate::schedule::System;
use crate::turret::{aim, aimed, best, nearest_target, Turret};
use crate::unit::{
    approached, collide, collide_rule, fall, fall_rule, resume, resume_rule, step_toward, Melee,
    UnitState,
};
use crate::world::{Spawn, TerrainMask, World, WorldView};
use vstd::prelude::*;

verus! {

/// The number of frames for which a fresh projectile hits nothing.
pub const IGNORED_FRAMES: u32 = 5;

impl WorldView {
    /// The world after the body `target` has taken a blow of `amount`: its
    /// health is lower, and at zero it is queued for removal. An entity
    /// without health takes no blow.
    pub open spec fn struck(self, target: usize, amount: u32) -> WorldView {
        if !self.healths.dom().contains(target) {
            self
        } else {
            let left = self.healths[target].damaged(amount);
            WorldView {
                healths: self.healths.insert(target, left),
                removals: if left.current == 0 {
                    self.removals.push(target)
                } else {
                    self.removals
                },
                ..self
            }
        }
    }

    /// Whether the terrain beneath the feet of a unit at `p` is solid: the
    /// cell right below the cell that holds `p`.
    pub open spec fn supports(self, p: Position) -> bool {
        self.terrain.solid.contains((cell_of(p.x as int), cell_of(p.y as int) + 1))
    }

    /// The first solid cell on the straight line between the cells of two
    /// places, if the line meets one.
    pub open spec fn path_hit(self, from: Position, to: Position) -> Option<(i32, i32)> {
        first_solid(
            self.terrain,
            line_points(
                cell_of(from.x as int) as i32,
                cell_of(from.y as int) as i32,
                cell_of(to.x as int) as i32,
                cell_of(to.y as int) as i32,
            ),
        )
    }

    /// Whether a piece of debris at `p` is done with: it is inside solid
    /// terrain, beside the terrain, or below it.
    pub open spec fn spent(self, p: Position) -> bool {
        let x = cell_of(p.x as int);
        let y = cell_of(p.y as int);
        self.terrain.solid.contains((x, y)) || x < 0 || x >= self.terrain.width || y
            >= self.terrain.height
    }

    /// The blow that the projectile `id` deals.
    pub open spec fn payload(self, id: usize) -> u32 {
        if self.damages.dom().contains(id) {
            self.damages[id].0
        } else {
            0
        }
    }

    /// Where the barrel of the turret `id` is.
    pub open spec fn barrel(self, id: usize) -> Position {
        if self.turret_offsets.dom().contains(id) {
            self.turret_offsets[id].barrel_spec(self.positions[id])
        } else {
            self.positions[id]
        }
    }

    /// A projectile moves under gravity and remembers where it came from.
    pub open spec fn projectile_step(self, id: usize) -> WorldView {
        if self.positions.dom().contains(id) && self.velocities.dom().contains(id)
            && self.projectiles.dom().contains(id) {
            let moved = integrated(self.positions[id], self.velocities[id], self.gravity, self.delta);
            WorldView {
                positions: self.positions.insert(id, moved.0),
                velocities: self.velocities.insert(id, moved.1),
                projectiles: self.projectiles.insert(
                    id,
                    Projectile { blast: self.projectiles[id].blast, from: self.positions[id] },
                ),
                ..self
            }
        } else {
            self
        }
    }

    /// Whether the projectile `id` still ignores collisions.
    pub open spec fn ignoring(self, id: usize) -> bool {
        self.ignores.dom().contains(id) && self.ignores[id].active()
    }

    /// A projectile that still ignores collisions counts one frame down.
    /// Any other is tested: against the bodies, of which the one with the
    /// lowest id that its box overlaps takes the blow; and, where it
    /// overlaps none, against the terrain along the line from where it was
    /// a frame ago, where the first solid cell becomes the middle of a
    /// crater to carve. A projectile that hit is queued for removal.
    pub open spec fn collision_step(self, id: usize) -> WorldView {
        if self.positions.dom().contains(id) && self.projectiles.dom().contains(id)
            && self.boxes.dom().contains(id) {
            let p = self.positions[id];
            let shot = self.projectiles[id];
            match resolved(
                self.ignoring(id),
                hit_of(self.bodies(), self.boxes[id].placed(p)),
                self.path_hit(shot.from, p),
            ) {
                Impact::Miss => if self.ignoring(id) {
                    WorldView { ignores: self.ignores.insert(id, self.ignores[id].aged()), ..self }
                } else {
                    self
                },
                Impact::Unit(target) => {
                    let hurt = self.struck(target, self.payload(id));
                    WorldView { removals: hurt.removals.push(id), ..hurt }
                },
                Impact::Terrain(x, y) => WorldView {
                    spawns: self.spawns.push(
                        Spawn::Carve {
                            request: TerrainMask { x: x as i64, y: y as i64, radius: shot.blast },
                        },
                    ),
                    removals: self.removals.push(id),
                    ..self
                },
            }
        } else {
            self
        }
    }

    /// A projectile whose cell is solid is queued for removal.
    pub open spec fn removal_step(self, id: usize) -> WorldView {
        if self.positions.dom().contains(id) && self.projectiles.dom().contains(id)
            && self.terrain.solid.contains(
            (cell_of(self.positions[id].x as int), cell_of(self.positions[id].y as int)),
        ) {
            WorldView { removals: self.removals.push(id), ..self }
        } else {
            self
        }
    }

    /// A walking unit steps towards its destination and stops there.
    pub open spec fn walk_step(self, id: usize) -> WorldView {
        if self.states.dom().contains(id) && self.states[id] == UnitState::Walking
            && self.positions.dom().contains(id) && self.destinations.dom().contains(id)
            && self.walks.dom().contains(id) {
            let p = self.positions[id];
            let step = saturate(travelled(self.walks[id].speed as int, self.delta));
            WorldView {
                positions: self.positions.insert(
                    id,
                    Position {
                        x: approached(p.x as int, self.destinations[id].0 as int, step) as i64,
                        y: p.y,
                    },
                ),
                ..self
            }
        } else {
            self
        }
    }

    /// The velocities with that of `id` put to zero, if it has one.
    pub open spec fn halted(self, id: usize) -> Map<usize, Velocity> {
        if self.velocities.dom().contains(id) {
            self.velocities.insert(id, Velocity { x: 0, y: 0 })
        } else {
            self.velocities
        }
    }

    /// A falling unit moves under gravity. A walking unit without support
    /// begins to fall, from rest.
    pub open spec fn fall_step(self, id: usize) -> WorldView {
        if self.states.dom().contains(id) && self.positions.dom().contains(id) {
            let p = self.positions[id];
            if self.states[id] == UnitState::Falling {
                if self.velocities.dom().contains(id) {
                    let moved = integrated(p, self.velocities[id], self.gravity, self.delta);
                    WorldView {
                        positions: self.positions.insert(id, moved.0),
                        velocities: self.velocities.insert(id, moved.1),
                        ..self
                    }
                } else {
                    self
                }
            } else if fall_rule(self.states[id], self.supports(p)) == UnitState::Falling {
                WorldView {
                    states: self.states.insert(id, UnitState::Falling),
                    velocities: self.halted(id),
                    ..self
                }
            } else {
                self
            }
        } else {
            self
        }
    }

    /// A falling unit with support walks again, from rest.
    pub open spec fn resume_step(self, id: usize) -> WorldView {
        if self.states.dom().contains(id) && self.positions.dom().contains(id) && self.states[id]
            == UnitState::Falling && self.supports(self.positions[id]) {
            WorldView {
                states: self.states.insert(
                    id,
                    resume_rule(self.states[id], self.supports(self.positions[id])),
                ),
                velocities: self.halted(id),
                ..self
            }
        } else {
            self
        }
    }

    /// The opponent that the unit `id` is up against: the one with the
    /// lowest id whose box overlaps its own.
    pub open spec fn opponent_of(self, id: usize) -> Option<usize> {
        hit_of(self.opponents(self.factions[id]), self.world_box(id))
    }

    /// Whether the entity `id` is a unit that can fight.
    pub open spec fn is_fighter(self, id: usize) -> bool {
        &&& self.states.dom().contains(id)
        &&& self.positions.dom().contains(id)
        &&& self.boxes.dom().contains(id)
        &&& self.factions.dom().contains(id)
    }

    /// A walking unit up against an opponent fights; a fighting unit
    /// without an opponent walks.
    pub open spec fn collide_step(self, id: usize) -> WorldView {
        if self.is_fighter(id) {
            WorldView {
                states: self.states.insert(
                    id,
                    collide_rule(self.states[id], self.opponent_of(id) is Some),
                ),
                ..self
            }
        } else {
            self
        }
    }

    /// A fighting unit lets its timer run, and deals a blow to its
    /// opponent whenever the timer fires.
    pub open spec fn melee_step(self, id: usize) -> WorldView {
        if self.is_fighter(id) && self.states[id] == UnitState::Melee
            && self.melees.dom().contains(id) {
            let m = self.melees[id];
            let opponent = self.opponent_of(id);
            let timed = WorldView {
                melees: self.melees.insert(
                    id,
                    Melee { damage: m.damage, cooldown: m.cooldown.ticked(self.delta, opponent is Some) },
                ),
                ..self
            };
            if m.cooldown.fires(self.delta, opponent is Some) {
                timed.struck(opponent.unwrap(), m.damage)
            } else {
                timed
            }
        } else {
            self
        }
    }

    /// A turret lets its timer run while it looks for the nearest living
    /// enemy in range of its base, and queues a projectile aimed at it from
    /// its barrel whenever the timer fires.
    pub open spec fn turret_step(self, id: usize) -> WorldView {
        if self.turrets.dom().contains(id) && self.positions.dom().contains(id) {
            let t = self.turrets[id];
            let target = best(self.positions[id], t.range_x, t.range_y, self.prey());
            let timed = WorldView {
                turrets: self.turrets.insert(
                    id,
                    Turret {
                        cooldown: t.cooldown.ticked(self.delta, target is Some),
                        range_x: t.range_x,
                        range_y: t.range_y,
                        damage: t.damage,
                        blast: t.blast,
                    },
                ),
                ..self
            };
            if t.cooldown.fires(self.delta, target is Some) {
                WorldView {
                    spawns: self.spawns.push(
                        Spawn::Projectile {
                            position: self.barrel(id),
                            velocity: aimed(self.barrel(id), target.unwrap().position, self.gravity),
                            damage: Damage(t.damage),
                            blast: t.blast,
                            ignore: IgnoreCollision(IGNORED_FRAMES),
                        },
                    ),
                    ..timed
                }
            } else {
                timed
            }
        } else {
            self
        }
    }

    /// A piece of debris moves under gravity, and is queued for removal
    /// once it is done with.
    pub open spec fn particle_step(self, id: usize) -> WorldView {
        if self.particles.dom().contains(id) && self.positions.dom().contains(id)
            && self.velocities.dom().contains(id) {
            let moved = integrated(self.positions[id], self.velocities[id], self.gravity, self.delta);
            WorldView {
                positions: self.positions.insert(id, moved.0),
                velocities: self.velocities.insert(id, moved.1),
                removals: if self.spent(moved.0) {
                    self.removals.push(id)
                } else {
                    self.removals
                },
                ..self
            }
        } else {
            self
        }
    }

    /// A request to carve is served: the terrain loses the disc, and the
    /// entity that carried the request is queued for removal. So is one
    /// that carried a request to collapse.
    pub open spec fn request_step(self, id: usize) -> WorldView {
        if self.masks.dom().contains(id) {
            let m = self.masks[id];
            WorldView {
                terrain: self.terrain.carved((m.x as int, m.y as int), m.radius as int),
                removals: self.removals.push(id),
                ..self
            }
        } else if self.collapses.dom().contains(id) {
            WorldView { removals: self.removals.push(id), ..self }
        } else {
            self
        }
    }

    /// What the system `system` does to the entity `id`.
    pub open spec fn step(self, system: System, id: usize) -> WorldView {
        match system {
            System::Projectile => self.projectile_step(id),
            System::ProjectileCollision => self.collision_step(id),
            System::ProjectileRemovalFromMask => self.removal_step(id),
            System::TerrainCollapse => self.request_step(id),
            System::Walk => self.walk_step(id),
            System::UnitFall => self.fall_step(id),
            System::UnitResumeWalking => self.resume_step(id),
            System::UnitCollide => self.collide_step(id),
            System::Melee => self.melee_step(id),
            System::Turret => self.turret_step(id),
            System::Particle => self.particle_step(id),
        }
    }

    /// The world after the system `system` has visited the entities below
    /// `upto`, by rising id.
    pub open spec fn visited(self, system: System, upto: nat) -> WorldView
        decreases upto,
    {
        if upto == 0 {
            self
        } else {
            self.visited(system, (upto - 1) as nat).step(system, (upto - 1) as usize)
        }
    }

    /// The world after the system `system` has visited every entity.
    pub open spec fn swept(self, system: System) -> WorldView {
        self.visited(system, self.next_id as nat)
    }
}

/// What a system does to an entity leaves the length of the frame, the
/// gravity and the set of entities as they are, and creates and destroys
/// no component: what is to be created and destroyed is queued. No system
/// but that of the terrain changes the terrain.
pub proof fn lemma_step_defers_changes(w: WorldView, system: System, id: usize, k: usize)
    ensures
        w.step(system, id).delta == w.delta,
        w.step(system, id).gravity == w.gravity,
        w.step(system, id).next_id == w.next_id,
        system != System::TerrainCollapse ==> w.step(system, id).terrain == w.terrain,
        w.step(system, id).carries(k) == w.carries(k),
        w.step(system, id).masks == w.masks,
        w.step(system, id).collapses == w.collapses,
{
    let after = w.step(system, id);
    match system {
        System::Projectile => {
            assert(after.carries(k) == w.carries(k));
        },
        System::ProjectileCollision => {
            assert(after.carries(k) == w.carries(k));
        },
        System::ProjectileRemovalFromMask => {
            assert(after.carries(k) == w.carries(k));
        },
        System::TerrainCollapse => {
            assert(after.carries(k) == w.carries(k));
        },
        System::Walk => {
            assert(after.carries(k) == w.carries(k));
        },
        System::UnitFall => {
            assert(after.carries(k) == w.carries(k));
        },
        System::UnitResumeWalking => {
            assert(after.carries(k) == w.carries(k));
        },
        System::UnitCollide => {
            assert(after.carries(k) == w.carries(k));
        },
        System::Melee => {
            assert(after.carries(k) == w.carries(k));
        },
        System::Turret => {
            assert(after.carries(k) == w.carries(k));
        },
        System::Particle => {
            assert(after.carries(k) == w.carries(k));
        },
    }
}

/// A walking unit whose support is gone is falling once the system of
/// falling has visited it, and a falling unit with support is walking
/// once the system of walking again has visited it: each takes one visit,
/// within one frame, and leaves the unit in one of its three states.
pub proof fn lemma_unit_falls_and_resumes(w: WorldView, id: usize)
    requires
        w.states.dom().contains(id),
        w.positions.dom().contains(id),
    ensures
        w.states[id] == UnitState::Walking && !w.supports(w.positions[id]) ==> w.step(
            System::UnitFall,
            id,
        ).states[id] == UnitState::Falling,
        w.states[id] == UnitState::Walking && w.supports(w.positions[id]) ==> w.step(
            System::UnitFall,
            id,
        ) == w,
        w.states[id] == UnitState::Falling && w.supports(w.positions[id]) ==> w.step(
            System::UnitResumeWalking,
            id,
        ).states[id] == UnitState::Walking,
        w.states[id] == UnitState::Falling && !w.supports(w.positions[id]) ==> w.step(
            System::UnitResumeWalking,
            id,
        ) == w,
        w.step(System::UnitFall, id).states.dom().contains(id),
        w.step(System::UnitResumeWalking, id).states.dom().contains(id),
{
}

/// A turret fires exactly when its timer does: a visit queues one
/// projectile when the timer fires and none when it does not, and leaves
/// the timer as the frame leaves it. So a turret fires at most once per
/// interval of elapsed time, as its timer does.
pub proof fn lemma_turret_follows_timer(w: WorldView, id: usize)
    requires
        w.turrets.dom().contains(id),
        w.positions.dom().contains(id),
    ensures
        ({
            let t = w.turrets[id];
            let wanted = best(w.positions[id], t.range_x, t.range_y, w.prey()) is Some;
            let after = w.step(System::Turret, id);
            &&& after.turrets[id].cooldown == t.cooldown.ticked(w.delta, wanted)
            &&& t.cooldown.fires(w.delta, wanted) ==> after.spawns.len() == w.spawns.len() + 1
                && after.spawns.last() is Projectile
            &&& !t.cooldown.fires(w.delta, wanted) ==> after.spawns == w.spawns
            &&& !wanted ==> after.spawns == w.spawns
        }),
{
}

/// A walking unit never passes its destination, and keeps its height.
pub proof fn lemma_walk_stops_at_destination(w: WorldView, id: usize)
    requires
        w.states.dom().contains(id),
        w.states[id] == UnitState::Walking,
        w.positions.dom().contains(id),
        w.destinations.dom().contains(id),
        w.walks.dom().contains(id),
    ensures
        ({
            let before = w.positions[id];
            let after = w.step(System::Walk, id).positions[id];
            let dest = w.destinations[id].0;
            &&& after.y == before.y
            &&& before.x <= dest ==> before.x <= after.x <= dest
            &&& before.x >= dest ==> dest <= after.x <= before.x
        }),
{
    crate::unit::lemma_no_overshoot(
        w.positions[id].x as int,
        w.destinations[id].0 as int,
        saturate(travelled(w.walks[id].speed as int, w.delta)),
    );
}

/// A request to carve is served by the one visit that finds it: the disc
/// is empty afterwards, the terrain outside it is as before, and the
/// entity that carried the request is queued for removal.
pub proof fn lemma_request_served(w: WorldView, id: usize, c: (int, int))
    requires
        w.masks.dom().contains(id),
    ensures
        ({
            let m = w.masks[id];
            let after = w.step(System::TerrainCollapse, id);
            &&& after.removals == w.removals.push(id)
            &&& crate::mask::in_disc(c, (m.x as int, m.y as int), m.radius as int)
                ==> !after.terrain.solid.contains(c)
            &&& !crate::mask::in_disc(c, (m.x as int, m.y as int), m.radius as int)
                ==> after.terrain.solid.contains(c) == w.terrain.solid.contains(c)
        }),
{
}

impl World {
    /// Deals a blow of `amount` to the body `target`.
    pub fn strike(&mut self, target: usize, amount: u32)
        ensures
            final(self)@ == old(self)@.struck(target, amount),
    {
        match self.healths.get(target) {
            Some(h) => {
                let left = h.damage(amount);
                self.healths.set(target, left);
                if left.is_dead() {
                    self.removals.push(target);
                }
            },
            None => {},
        }
    }

    /// Whether the terrain beneath the feet of a unit at `p` is solid.
    pub fn supports(&self, p: Position) -> (b: bool)
        ensures
            b == self@.supports(p),
    {
        let c: (i32, i32) = p.as_i32();
        self.terrain.is_solid(c.0 as i64, c.1 as i64 + 1)
    }

    fn halt(&mut self, id: usize)
        ensures
            final(self)@ == (WorldView { velocities: old(self)@.halted(id), ..old(self)@ }),
    {
        if self.velocities.contains(id) {
            self.velocities.set(id, Velocity { x: 0, y: 0 });
        }
    }

    fn projectile_entity(&mut self, id: usize)
        ensures
            final(self)@ == old(self)@.projectile_step(id),
    {
        if let Some(p) = self.positions.get(id) {
            if let Some(v) = self.velocities.get(id) {
                if let Some(shot) = self.projectiles.get(id) {
                    let moved: (Position, Velocity) = integrate(p, v, self.gravity, &self.delta);
                    self.positions.set(id, moved.0);
                    self.velocities.set(id, moved.1);
                    self.projectiles.set(id, Projectile { blast: shot.blast, from: p });
                }
            }
        }
    }

    fn collision_entity(&mut self, id: usize)
        ensures
            final(self)@ == old(self)@.collision_step(id),
    {
        if let Some(p) = self.positions.get(id) {
            if let Some(shot) = self.projectiles.get(id) {
                if let Some(shape) = self.boxes.get(id) {
                    let ignore: Option<IgnoreCollision> = self.ignores.get(id);
                    let ignoring: bool = match ignore {
                        Some(i) => i.is_active(),
                        None => false,
                    };
                    if ignoring {
                        self.ignores.set(id, ignore.unwrap().age());
                    } else {
                        let targets = self.bodies();
                        let probe = shape.at(p);
                        let unit_hit: Option<usize> = first_hit(&targets, &probe);
                        let start: (i32, i32) = shot.from.as_i32();
                        let end: (i32, i32) = p.as_i32();
                        let terrain_hit: Option<(i32, i32)> = self.terrain.line_collides(start, end);
                        match resolve(false, unit_hit, terrain_hit) {
                            Impact::Miss => {},
                            Impact::Unit(target) => {
                                let amount: u32 = match self.damages.get(id) {
                                    Some(d) => d.0,
                                    None => 0,
                                };
                                self.strike(target, amount);
                                self.removals.push(id);
                            },
                            Impact::Terrain(x, y) => {
                                self.spawns.push(
                                    Spawn::Carve {
                                        request: TerrainMask {
                                            x: x as i64,
                                            y: y as i64,
                                            radius: shot.blast,
                                        },
                                    },
                                );
                                self.removals.push(id);
                            },
                        }
                    }
                }
            }
        }
    }

    fn removal_entity(&mut self, id: usize)
        ensures
            final(self)@ == old(self)@.removal_step(id),
    {
        if let Some(p) = self.positions.get(id) {
            if self.projectiles.contains(id) {
                let c: (i32, i32) = p.as_i32();
                if self.terrain.is_solid(c.0 as i64, c.1 as i64) {
                    self.removals.push(id);
                }
            }
        }
    }

    fn walk_entity(&mut self, id: usize)
        ensures
            final(self)@ == old(self)@.walk_step(id),
    {
        if let Some(UnitState::Walking) = self.states.get(id) {
            if let Some(p) = self.positions.get(id) {
                if let Some(dest) = self.destinations.get(id) {
                    if let Some(walk) = self.walks.get(id) {
                        let step: i64 = travel(walk.speed as i64, &self.delta);
                        self.positions.set(id, Position { x: step_toward(p.x, dest.0, step), y: p.y });
                    }
                }
            }
        }
    }

    fn fall_entity(&mut self, id: usize)
        ensures
            final(self)@ == old(self)@.fall_step(id),
    {
        if let Some(state) = self.states.get(id) {
            if let Some(p) = self.positions.get(id) {
                match state {
                    UnitState::Falling => {
                        if let Some(v) = self.velocities.get(id) {
                            let moved: (Position, Velocity) = integrate(p, v, self.gravity, &self.delta);
                            self.positions.set(id, moved.0);
                            self.velocities.set(id, moved.1);
                        }
                    },
                    other => {
                        let next: UnitState = fall(other, self.supports(p));
                        if next == UnitState::Falling {
                            self.states.set(id, next);
                            self.halt(id);
                        }
                    },
                }
            }
        }
    }

    fn resume_entity(&mut self, id: usize)
        ensures
            final(self)@ == old(self)@.resume_step(id),
    {
        if let Some(UnitState::Falling) = self.states.get(id) {
            if let Some(p) = self.positions.get(id) {
                let supported: bool = self.supports(p);
                if supported {
                    self.states.set(id, resume(UnitState::Falling, supported));
                    self.halt(id);
                }
            }
        }
    }

    /// The opponent that the unit `id` is up against, if it can fight and
    /// there is one.
    fn opponent(&self, id: usize) -> (found: Option<usize>)
        requires
            self@.is_fighter(id),
        ensures
            found == self@.opponent_of(id),
    {
        let side = self.factions.get(id).unwrap();
        let shape = self.boxes.get(id).unwrap();
        let p = self.positions.get(id).unwrap();
        let others = self.opponents(side);
        let probe = shape.at(p);
        first_hit(&others, &probe)
    }

    fn is_fighter(&self, id: usize) -> (b: bool)
        ensures
            b == self@.is_fighter(id),
    {
        self.states.contains(id) && self.positions.contains(id) && self.boxes.contains(id)
            && self.factions.contains(id)
    }

    fn collide_entity(&mut self, id: usize)
        ensures
            final(self)@ == old(self)@.collide_step(id),
    {
        if self.is_fighter(id) {
            let state = self.states.get(id).unwrap();
            let engaged: bool = self.opponent(id).is_some();
            self.states.set(id, collide(state, engaged));
        }
    }

    fn melee_entity(&mut self, id: usize)
        ensures
            final(self)@ == old(self)@.melee_step(id),
    {
        if self.is_fighter(id) {
            if let Some(UnitState::Melee) = self.states.get(id) {
                if let Some(m) = self.melees.get(id) {
                    let found: Option<usize> = self.opponent(id);
                    let mut timer: Cooldown = m.cooldown;
                    let fired: bool = timer.tick(&self.delta, found.is_some());
                    self.melees.set(id, Melee { damage: m.damage, cooldown: timer });
                    if fired {
                        self.strike(found.unwrap(), m.damage);
                    }
                }
            }
        }
    }

    fn turret_entity(&mut self, id: usize)
        ensures
            final(self)@ == old(self)@.turret_step(id),
    {
        if let Some(t) = self.turrets.get(id) {
            if let Some(base) = self.positions.get(id) {
                let candidates = self.prey();
                let target = nearest_target(base, t.range_x, t.range_y, &candidates);
                let mut timer: Cooldown = t.cooldown;
                let fired: bool = timer.tick(&self.delta, target.is_some());
                self.turrets.set(
                    id,
                    Turret {
                        cooldown: timer,
                        range_x: t.range_x,
                        range_y: t.range_y,
                        damage: t.damage,
                        blast: t.blast,
                    },
                );
                if fired {
                    let barrel: Position = match self.turret_offsets.get(id) {
                        Some(offset) => offset.barrel(base),
                        None => base,
                    };
                    self.spawns.push(
                        Spawn::Projectile {
                            position: barrel,
                            velocity: aim(barrel, target.unwrap().position, self.gravity),
                            damage: Damage(t.damage),
                            blast: t.blast,
                            ignore: IgnoreCollision(IGNORED_FRAMES),
                        },
                    );
                }
            }
        }
    }

    /// Whether a piece of debris at `p` is done with.
    pub fn spent(&self, p: Position) -> (b: bool)
        ensures
            b == self@.spent(p),
    {
        let c: (i32, i32) = p.as_i32();
        self.terrain.is_solid(c.0 as i64, c.1 as i64) || c.0 < 0 || c.0 as i64
            >= self.terrain.width() as i64 || c.1 as i64 >= self.terrain.height() as i64
    }

    fn particle_entity(&mut self, id: usize)
        ensures
            final(self)@ == old(self)@.particle_step(id),
    {
        if self.particles.contains(id) {
            if let Some(p) = self.positions.get(id) {
                if let Some(v) = self.velocities.get(id) {
                    let moved: (Position, Velocity) = integrate(p, v, self.gravity, &self.delta);
                    self.positions.set(id, moved.0);
                    self.velocities.set(id, moved.1);
                    if self.spent(moved.0) {
                        self.removals.push(id);
                    }
                }
            }
        }
    }

    fn request_entity(&mut self, id: usize)
        ensures
            final(self)@ == old(self)@.request_step(id),
    {
        if let Some(m) = self.masks.get(id) {
            self.terrain.carve(m.x, m.y, m.radius);
            self.removals.push(id);
        } else if self.collapses.contains(id) {
            self.removals.push(id);
        }
    }

    /// Lets the system `system` do its work on the entity `id`.
    pub fn step(&mut self, system: System, id: usize)
        ensures
            final(self)@ == old(self)@.step(system, id),
    {
        match system {
            System::Projectile => self.projectile_entity(id),
            System::ProjectileCollision => self.collision_entity(id),
            System::ProjectileRemovalFromMask => self.removal_entity(id),
            System::TerrainCollapse => self.request_entity(id),
            System::Walk => self.walk_entity(id),
            System::UnitFall => self.fall_entity(id),
            System::UnitResumeWalking => self.resume_entity(id),
            System::UnitCollide => self.collide_entity(id),
            System::Melee => self.melee_entity(id),
            System::Turret => self.turret_entity(id),
            System::Particle => self.particle_entity(id),
        }
    }

    /// Lets the system `system` visit every entity, by rising id.
    pub fn sweep(&mut self, system: System)
        ensures
            final(self)@ == old(self)@.swept(system),
    {
        let n: usize = self.next_id;
        let mut id: usize = 0;
        while id < n
            invariant
                id <= n,
                n == old(self)@.next_id,
                self@ == old(self)@.visited(system, id as nat),
            decreases n - id,
        {
            self.step(system, id);
            id += 1;
        }
    }
}

} // verus!
