//! The lists of entities that the systems search: the bodies that can be
//! hit, the opponents of a side, and the units that turrets fire at.

use crate::geom::BoundingBox;
use crate::projectile::Target;
use crate::turret::Candidate;
use crate::unit::Faction;
use crate::world::{World, WorldView};
use vstd::prelude::*;

verus! {

impl WorldView {
    /// Whether the entity `id` can be hit: it has a place, a shape and
    /// health.
    pub open spec fn is_body(self, id: usize) -> bool {
        &&& self.positions.dom().contains(id)
        &&& self.boxes.dom().contains(id)
        &&& self.healths.dom().contains(id)
    }

    /// The box of the entity `id` in world coordinates.
    pub open spec fn world_box(self, id: usize) -> BoundingBox {
        self.boxes[id].placed(self.positions[id])
    }

    /// Whether the entity `id` is a body that fights the side `of`.
    pub open spec fn is_opponent(self, of: Faction, id: usize) -> bool {
        self.is_body(id) && self.factions.dom().contains(id) && self.factions[id] != of
    }

    /// Whether turrets fire at the entity `id`: a living unit of the enemy.
    pub open spec fn is_prey(self, id: usize) -> bool {
        &&& self.positions.dom().contains(id)
        &&& self.factions.dom().contains(id)
        &&& self.factions[id] == Faction::Enemy
        &&& self.healths.dom().contains(id)
        &&& self.healths[id].current > 0
    }

    /// The bodies among the entities below `upto`, by rising id.
    pub open spec fn bodies_upto(self, upto: nat) -> Seq<Target>
        decreases upto,
    {
        if upto == 0 {
            Seq::empty()
        } else {
            let id = (upto - 1) as usize;
            let rest = self.bodies_upto((upto - 1) as nat);
            if self.is_body(id) {
                rest.push(Target { id, bounds: self.world_box(id) })
            } else {
                rest
            }
        }
    }

    /// The bodies, by rising id.
    pub open spec fn bodies(self) -> Seq<Target> {
        self.bodies_upto(self.next_id as nat)
    }

    /// The bodies that fight the side `of` among the entities below `upto`,
    /// by rising id.
    pub open spec fn opponents_upto(self, of: Faction, upto: nat) -> Seq<Target>
        decreases upto,
    {
        if upto == 0 {
            Seq::empty()
        } else {
            let id = (upto - 1) as usize;
            let rest = self.opponents_upto(of, (upto - 1) as nat);
            if self.is_opponent(of, id) {
                rest.push(Target { id, bounds: self.world_box(id) })
            } else {
                rest
            }
        }
    }

    /// The bodies that fight the side `of`, by rising id.
    pub open spec fn opponents(self, of: Faction) -> Seq<Target> {
        self.opponents_upto(of, self.next_id as nat)
    }

    /// The units that turrets fire at among the entities below `upto`, by
    /// rising id.
    pub open spec fn prey_upto(self, upto: nat) -> Seq<Candidate>
        decreases upto,
    {
        if upto == 0 {
            Seq::empty()
        } else {
            let id = (upto - 1) as usize;
            let rest = self.prey_upto((upto - 1) as nat);
            if self.is_prey(id) {
                rest.push(Candidate { id, position: self.positions[id] })
            } else {
                rest
            }
        }
    }

    /// The units that turrets fire at, by rising id.
    pub open spec fn prey(self) -> Seq<Candidate> {
        self.prey_upto(self.next_id as nat)
    }
}

impl World {
    /// The box of the entity `id` in world coordinates, if it is a body.
    pub fn body_box(&self, id: usize) -> (b: Option<BoundingBox>)
        ensures
            b == (if self@.is_body(id) {
                Some(self@.world_box(id))
            } else {
                None
            }),
    {
        if !self.healths.contains(id) {
            return None;
        }
        match self.positions.get(id) {
            Some(p) => match self.boxes.get(id) {
                Some(shape) => Some(shape.at(p)),
                None => None,
            },
            None => None,
        }
    }

    /// The bodies, by rising id.
    pub fn bodies(&self) -> (list: Vec<Target>)
        ensures
            list@ == self@.bodies(),
    {
        let mut list: Vec<Target> = Vec::new();
        let mut id: usize = 0;
        while id < self.next_id
            invariant
                id <= self.next_id,
                list@ == self@.bodies_upto(id as nat),
            decreases self.next_id - id,
        {
            match self.body_box(id) {
                Some(bounds) => {
                    list.push(Target { id, bounds });
                },
                None => {},
            }
            id += 1;
        }
        list
    }

    /// The bodies that fight the side `of`, by rising id.
    pub fn opponents(&self, of: Faction) -> (list: Vec<Target>)
        ensures
            list@ == self@.opponents(of),
    {
        let mut list: Vec<Target> = Vec::new();
        let mut id: usize = 0;
        while id < self.next_id
            invariant
                id <= self.next_id,
                list@ == self@.opponents_upto(of, id as nat),
            decreases self.next_id - id,
        {
            match self.factions.get(id) {
                Some(side) => {
                    if side.opposes(&of) {
                        match self.body_box(id) {
                            Some(bounds) => {
                                list.push(Target { id, bounds });
                            },
                            None => {},
                        }
                    }
                },
                None => {},
            }
            id += 1;
        }
        list
    }

    /// The units that turrets fire at, by rising id.
    pub fn prey(&self) -> (list: Vec<Candidate>)
        ensures
            list@ == self@.prey(),
    {
        let mut list: Vec<Candidate> = Vec::new();
        let mut id: usize = 0;
        while id < self.next_id
            invariant
                id <= self.next_id,
                list@ == self@.prey_upto(id as nat),
            decreases self.next_id - id,
        {
            match self.factions.get(id) {
                Some(Faction::Enemy) => {
                    match self.healths.get(id) {
                        Some(h) => {
                            if h.current > 0 {
                                match self.positions.get(id) {
                                    Some(position) => {
                                        list.push(Candidate { id, position });
                                    },
                                    None => {},
                                }
                            }
                        },
                        None => {},
                    }
                },
                _ => {},
            }
            id += 1;
        }
        list
    }
}

} // verus!
