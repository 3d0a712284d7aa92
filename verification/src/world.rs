//! The simulation context: the entities with their components, the shared
//! resources, and the buffer of entities to create and destroy when the
//! frame is over.
//!
//! An entity is an id below `next_id`. Each kind of component has a
//! container of its own, keyed by entity id.

use crate::geom::BoundingBox;
use crate::mask::Mask;
use crate::physics::{DeltaTime, Gravity, Position, Velocity};
use crate::projectile::{Arrow, Damage, IgnoreCollision, Projectile};
use crate::store::{Storage, ID_LIMIT};
use crate::terrain::Terrain;
use crate::turret::{Turret, TurretOffset};
use crate::unit::{Destination, Faction, Health, Melee, UnitState, Walk};
use vstd::prelude::*;

verus! {

/// A request to empty the terrain within `radius` cells of the cell
/// `(x, y)`. It is served once, and the entity that carries it destroyed.
#[derive(Clone, Copy, Debug, PartialEq, Eq, Structural)]
pub struct TerrainMask {
    pub x: i64,
    pub y: i64,
    pub radius: u32,
}

/// A request to let unsupported terrain collapse. It is served once, and
/// the entity that carries it destroyed.
#[derive(Clone, Copy, Debug, PartialEq, Eq, Structural)]
pub struct TerrainCollapse;

/// Marks a piece of debris.
#[derive(Clone, Copy, Debug, PartialEq, Eq, Structural)]
pub struct PixelParticle;

/// An entity to create when the frame is over.
#[derive(Clone, Copy, Debug, PartialEq, Eq, Structural)]
pub enum Spawn {
    Projectile { position: Position, velocity: Velocity, damage: Damage, blast: u32, ignore: IgnoreCollision },
    Carve { request: TerrainMask },
    Collapse,
    Debris { position: Position, velocity: Velocity },
    Unit {
        position: Position,
        faction: Faction,
        health: Health,
        walk: Walk,
        destination: Destination,
        shape: BoundingBox,
        melee: Melee,
    },
    Turret { position: Position, offset: TurretOffset, turret: Turret },
}

/// The shape of a projectile, measured from its middle: one cell wide and
/// one tall.
pub open spec fn projectile_shape() -> BoundingBox {
    BoundingBox { min_x: -500i64, min_y: -500i64, max_x: 500, max_y: 500 }
}

/// The simulation context.
pub struct World {
    pub next_id: usize,
    pub positions: Storage<Position>,
    pub velocities: Storage<Velocity>,
    pub boxes: Storage<BoundingBox>,
    pub states: Storage<UnitState>,
    pub healths: Storage<Health>,
    pub destinations: Storage<Destination>,
    pub factions: Storage<Faction>,
    pub walks: Storage<Walk>,
    pub melees: Storage<Melee>,
    pub turrets: Storage<Turret>,
    pub turret_offsets: Storage<TurretOffset>,
    pub projectiles: Storage<Projectile>,
    pub damages: Storage<Damage>,
    pub ignores: Storage<IgnoreCollision>,
    pub arrows: Storage<Arrow>,
    pub masks: Storage<TerrainMask>,
    pub collapses: Storage<TerrainCollapse>,
    pub particles: Storage<PixelParticle>,
    pub terrain: Terrain,
    pub gravity: Gravity,
    pub delta: DeltaTime,
    pub spawns: Vec<Spawn>,
    pub removals: Vec<usize>,
}

/// The mathematical content of a world.
pub struct WorldView {
    pub next_id: usize,
    pub positions: Map<usize, Position>,
    pub velocities: Map<usize, Velocity>,
    pub boxes: Map<usize, BoundingBox>,
    pub states: Map<usize, UnitState>,
    pub healths: Map<usize, Health>,
    pub destinations: Map<usize, Destination>,
    pub factions: Map<usize, Faction>,
    pub walks: Map<usize, Walk>,
    pub melees: Map<usize, Melee>,
    pub turrets: Map<usize, Turret>,
    pub turret_offsets: Map<usize, TurretOffset>,
    pub projectiles: Map<usize, Projectile>,
    pub damages: Map<usize, Damage>,
    pub ignores: Map<usize, IgnoreCollision>,
    pub arrows: Map<usize, Arrow>,
    pub masks: Map<usize, TerrainMask>,
    pub collapses: Map<usize, TerrainCollapse>,
    pub particles: Map<usize, PixelParticle>,
    pub terrain: Mask,
    pub gravity: Gravity,
    pub delta: nat,
    pub spawns: Seq<Spawn>,
    pub removals: Seq<usize>,
}

impl View for World {
    type V = WorldView;

    open spec fn view(&self) -> WorldView {
        WorldView {
            next_id: self.next_id,
            positions: self.positions@,
            velocities: self.velocities@,
            boxes: self.boxes@,
            states: self.states@,
            healths: self.healths@,
            destinations: self.destinations@,
            factions: self.factions@,
            walks: self.walks@,
            melees: self.melees@,
            turrets: self.turrets@,
            turret_offsets: self.turret_offsets@,
            projectiles: self.projectiles@,
            damages: self.damages@,
            ignores: self.ignores@,
            arrows: self.arrows@,
            masks: self.masks@,
            collapses: self.collapses@,
            particles: self.particles@,
            terrain: self.terrain@,
            gravity: self.gravity,
            delta: self.delta@,
            spawns: self.spawns@,
            removals: self.removals@,
        }
    }
}

impl WorldView {
    /// The world without any component of the entity `id`.
    pub open spec fn erased(self, id: usize) -> WorldView {
        WorldView {
            positions: self.positions.remove(id),
            velocities: self.velocities.remove(id),
            boxes: self.boxes.remove(id),
            states: self.states.remove(id),
            healths: self.healths.remove(id),
            destinations: self.destinations.remove(id),
            factions: self.factions.remove(id),
            walks: self.walks.remove(id),
            melees: self.melees.remove(id),
            turrets: self.turrets.remove(id),
            turret_offsets: self.turret_offsets.remove(id),
            projectiles: self.projectiles.remove(id),
            damages: self.damages.remove(id),
            ignores: self.ignores.remove(id),
            arrows: self.arrows.remove(id),
            masks: self.masks.remove(id),
            collapses: self.collapses.remove(id),
            particles: self.particles.remove(id),
            ..self
        }
    }

    /// The world with one more entity, made after `spawn`. Once the ids
    /// are used up, nothing is made.
    pub open spec fn spawned(self, spawn: Spawn) -> WorldView {
        let id = self.next_id;
        if id >= ID_LIMIT {
            self
        } else {
            let made = WorldView { next_id: (id + 1) as usize, ..self };
            match spawn {
                Spawn::Projectile { position, velocity, damage, blast, ignore } => WorldView {
                    positions: self.positions.insert(id, position),
                    velocities: self.velocities.insert(id, velocity),
                    boxes: self.boxes.insert(id, projectile_shape()),
                    projectiles: self.projectiles.insert(id, Projectile { blast, from: position }),
                    damages: self.damages.insert(id, damage),
                    ignores: self.ignores.insert(id, ignore),
                    arrows: self.arrows.insert(id, Arrow),
                    ..made
                },
                Spawn::Carve { request } => WorldView {
                    masks: self.masks.insert(id, request),
                    ..made
                },
                Spawn::Collapse => WorldView {
                    collapses: self.collapses.insert(id, TerrainCollapse),
                    ..made
                },
                Spawn::Debris { position, velocity } => WorldView {
                    positions: self.positions.insert(id, position),
                    velocities: self.velocities.insert(id, velocity),
                    particles: self.particles.insert(id, PixelParticle),
                    ..made
                },
                Spawn::Unit { position, faction, health, walk, destination, shape, melee } => WorldView {
                    positions: self.positions.insert(id, position),
                    velocities: self.velocities.insert(id, Velocity { x: 0, y: 0 }),
                    boxes: self.boxes.insert(id, shape),
                    states: self.states.insert(id, UnitState::Walking),
                    healths: self.healths.insert(id, health),
                    destinations: self.destinations.insert(id, destination),
                    factions: self.factions.insert(id, faction),
                    walks: self.walks.insert(id, walk),
                    melees: self.melees.insert(id, melee),
                    ..made
                },
                Spawn::Turret { position, offset, turret } => WorldView {
                    positions: self.positions.insert(id, position),
                    turrets: self.turrets.insert(id, turret),
                    turret_offsets: self.turret_offsets.insert(id, offset),
                    ..made
                },
            }
        }
    }

    /// The world after the first `upto` of the entities `ids` are erased.
    pub open spec fn erased_all(self, ids: Seq<usize>, upto: nat) -> WorldView
        decreases upto,
    {
        if upto == 0 {
            self
        } else {
            self.erased_all(ids, (upto - 1) as nat).erased(ids[upto - 1])
        }
    }

    /// The world after the first `upto` of `spawns` are made.
    pub open spec fn spawned_all(self, spawns: Seq<Spawn>, upto: nat) -> WorldView
        decreases upto,
    {
        if upto == 0 {
            self
        } else {
            self.spawned_all(spawns, (upto - 1) as nat).spawned(spawns[upto - 1])
        }
    }

    /// The world after the frame's buffer is applied: the entities queued
    /// for removal are erased, then the queued entities are made, and the
    /// buffer is empty.
    pub open spec fn maintained(self) -> WorldView {
        let cleared = WorldView { spawns: Seq::empty(), removals: Seq::empty(), ..self };
        cleared.erased_all(self.removals, self.removals.len()).spawned_all(
            self.spawns,
            self.spawns.len(),
        )
    }
}

impl World {
    /// A world without entities, on the given terrain.
    pub fn new(terrain: Terrain, gravity: Gravity, delta: DeltaTime) -> (w: World)
        ensures
            w@.next_id == 0,
            w@.terrain == terrain@,
            w@.gravity == gravity,
            w@.delta == delta@,
            w@.spawns == Seq::<Spawn>::empty(),
            w@.removals == Seq::<usize>::empty(),
            w@.positions == Map::<usize, Position>::empty(),
            w@.velocities == Map::<usize, Velocity>::empty(),
            w@.boxes == Map::<usize, BoundingBox>::empty(),
            w@.states == Map::<usize, UnitState>::empty(),
            w@.healths == Map::<usize, Health>::empty(),
            w@.destinations == Map::<usize, Destination>::empty(),
            w@.factions == Map::<usize, Faction>::empty(),
            w@.walks == Map::<usize, Walk>::empty(),
            w@.melees == Map::<usize, Melee>::empty(),
            w@.turrets == Map::<usize, Turret>::empty(),
            w@.turret_offsets == Map::<usize, TurretOffset>::empty(),
            w@.projectiles == Map::<usize, Projectile>::empty(),
            w@.damages == Map::<usize, Damage>::empty(),
            w@.ignores == Map::<usize, IgnoreCollision>::empty(),
            w@.arrows == Map::<usize, Arrow>::empty(),
            w@.masks == Map::<usize, TerrainMask>::empty(),
            w@.collapses == Map::<usize, TerrainCollapse>::empty(),
            w@.particles == Map::<usize, PixelParticle>::empty(),
    {
        World {
            next_id: 0,
            positions: Storage::new(),
            velocities: Storage::new(),
            boxes: Storage::new(),
            states: Storage::new(),
            healths: Storage::new(),
            destinations: Storage::new(),
            factions: Storage::new(),
            walks: Storage::new(),
            melees: Storage::new(),
            turrets: Storage::new(),
            turret_offsets: Storage::new(),
            projectiles: Storage::new(),
            damages: Storage::new(),
            ignores: Storage::new(),
            arrows: Storage::new(),
            masks: Storage::new(),
            collapses: Storage::new(),
            particles: Storage::new(),
            terrain,
            gravity,
            delta,
            spawns: Vec::new(),
            removals: Vec::new(),
        }
    }

    /// Destroys the entity `id` at once: takes all its components away.
    pub fn erase(&mut self, id: usize)
        ensures
            final(self)@ == old(self)@.erased(id),
    {
        self.positions.remove(id);
        self.velocities.remove(id);
        self.boxes.remove(id);
        self.states.remove(id);
        self.healths.remove(id);
        self.destinations.remove(id);
        self.factions.remove(id);
        self.walks.remove(id);
        self.melees.remove(id);
        self.turrets.remove(id);
        self.turret_offsets.remove(id);
        self.projectiles.remove(id);
        self.damages.remove(id);
        self.ignores.remove(id);
        self.arrows.remove(id);
        self.masks.remove(id);
        self.collapses.remove(id);
        self.particles.remove(id);
    }

    /// Creates an entity after `spawn` at once, and returns its id; `None`
    /// once the ids are used up.
    pub fn spawn(&mut self, spawn: Spawn) -> (made: Option<usize>)
        ensures
            final(self)@ == old(self)@.spawned(spawn),
            made == (if old(self)@.next_id < ID_LIMIT {
                Some(old(self)@.next_id)
            } else {
                None
            }),
    {
        let id: usize = self.next_id;
        if id >= ID_LIMIT {
            return None;
        }
        self.next_id = id + 1;
        match spawn {
            Spawn::Projectile { position, velocity, damage, blast, ignore } => {
                self.positions.insert(id, position);
                self.velocities.insert(id, velocity);
                self.boxes.insert(
                    id,
                    BoundingBox { min_x: -500, min_y: -500, max_x: 500, max_y: 500 },
                );
                self.projectiles.insert(id, Projectile { blast, from: position });
                self.damages.insert(id, damage);
                self.ignores.insert(id, ignore);
                self.arrows.insert(id, Arrow);
            },
            Spawn::Carve { request } => {
                self.masks.insert(id, request);
            },
            Spawn::Collapse => {
                self.collapses.insert(id, TerrainCollapse);
            },
            Spawn::Debris { position, velocity } => {
                self.positions.insert(id, position);
                self.velocities.insert(id, velocity);
                self.particles.insert(id, PixelParticle);
            },
            Spawn::Unit { position, faction, health, walk, destination, shape, melee } => {
                self.positions.insert(id, position);
                self.velocities.insert(id, Velocity { x: 0, y: 0 });
                self.boxes.insert(id, shape);
                self.states.insert(id, UnitState::Walking);
                self.healths.insert(id, health);
                self.destinations.insert(id, destination);
                self.factions.insert(id, faction);
                self.walks.insert(id, walk);
                self.melees.insert(id, melee);
            },
            Spawn::Turret { position, offset, turret } => {
                self.positions.insert(id, position);
                self.turrets.insert(id, turret);
                self.turret_offsets.insert(id, offset);
            },
        }
        Some(id)
    }

    /// Queues an entity to be created when the frame is over.
    pub fn queue_spawn(&mut self, spawn: Spawn)
        ensures
            final(self)@ == (WorldView { spawns: old(self)@.spawns.push(spawn), ..old(self)@ }),
    {
        self.spawns.push(spawn);
    }

    /// Queues the entity `id` to be destroyed when the frame is over.
    pub fn queue_removal(&mut self, id: usize)
        ensures
            final(self)@ == (WorldView { removals: old(self)@.removals.push(id), ..old(self)@ }),
    {
        self.removals.push(id);
    }

    /// Applies the frame's buffer: destroys the entities queued for
    /// removal, then creates the queued entities, and empties the buffer.
    pub fn maintain(&mut self)
        ensures
            final(self)@ == old(self)@.maintained(),
    {
        let mut removals: Vec<usize> = Vec::new();
        let mut spawns: Vec<Spawn> = Vec::new();
        std::mem::swap(&mut removals, &mut self.removals);
        std::mem::swap(&mut spawns, &mut self.spawns);
        let ghost cleared = self@;
        assert(cleared == (WorldView { spawns: Seq::empty(), removals: Seq::empty(), ..old(self)@ }));
        let mut i: usize = 0;
        while i < removals.len()
            invariant
                i <= removals.len(),
                self@ == cleared.erased_all(removals@, i as nat),
            decreases removals.len() - i,
        {
            self.erase(removals[i]);
            i += 1;
        }
        let ghost erased = self@;
        let mut k: usize = 0;
        while k < spawns.len()
            invariant
                k <= spawns.len(),
                self@ == erased.spawned_all(spawns@, k as nat),
            decreases spawns.len() - k,
        {
            self.spawn(spawns[k]);
            k += 1;
        }
    }
}

} // verus!
