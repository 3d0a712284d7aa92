//! Units: their state machine, their health, and how they walk.

use crate::cadence::Cooldown;
use vstd::prelude::*;

verus! {

/// What a unit is doing.
#[derive(Clone, Copy, Debug, PartialEq, Eq, Structural)]
pub enum UnitState {
    Walking,
    Melee,
    Falling,
}

/// The side a unit fights on.
#[derive(Clone, Copy, Debug, PartialEq, Eq, Structural)]
pub enum Faction {
    Ally,
    Enemy,
}

/// The `x` coordinate that a walking unit heads for.
#[derive(Clone, Copy, Debug, PartialEq, Eq, Structural)]
pub struct Destination(pub i64);

/// The speed of a walking unit, in units per second.
#[derive(Clone, Copy, Debug, PartialEq, Eq, Structural)]
pub struct Walk {
    pub speed: u32,
}

/// The health that a unit has left, and the most it can have.
#[derive(Clone, Copy, Debug, PartialEq, Eq, Structural)]
pub struct Health {
    pub current: u32,
    pub max: u32,
}

/// How a unit fights: the health that one blow takes, and the timer
/// between blows.
#[derive(Clone, Copy, Debug, PartialEq, Eq, Structural)]
pub struct Melee {
    pub damage: u32,
    pub cooldown: Cooldown,
}

impl Faction {
    /// Whether the two sides fight each other.
    pub fn opposes(&self, other: &Faction) -> (b: bool)
        ensures
            b == (*self != *other),
    {
        match (self, other) {
            (Faction::Ally, Faction::Enemy) => true,
            (Faction::Enemy, Faction::Ally) => true,
            _ => false,
        }
    }
}

impl Health {
    /// The health after `amount` is taken away, never below zero.
    pub open spec fn damaged(self, amount: u32) -> Health {
        Health {
            current: if amount >= self.current {
                0
            } else {
                (self.current - amount) as u32
            },
            max: self.max,
        }
    }

    /// Full health.
    pub fn new(max: u32) -> (h: Health)
        ensures
            h == (Health { current: max, max }),
    {
        Health { current: max, max }
    }

    /// The health after `amount` is taken away, never below zero.
    pub fn damage(&self, amount: u32) -> (h: Health)
        ensures
            h == self.damaged(amount),
    {
        Health {
            current: if amount >= self.current {
                0
            } else {
                self.current - amount
            },
            max: self.max,
        }
    }

    /// Whether no health is left.
    pub fn is_dead(&self) -> (dead: bool)
        ensures
            dead == (self.current == 0),
    {
        self.current == 0
    }
}

/// A walking unit falls once the terrain beneath its feet is not solid.
pub open spec fn fall_rule(state: UnitState, supported: bool) -> UnitState {
    if state == UnitState::Walking && !supported {
        UnitState::Falling
    } else {
        state
    }
}

/// A falling unit walks again once its feet rest on solid terrain.
pub open spec fn resume_rule(state: UnitState, supported: bool) -> UnitState {
    if state == UnitState::Falling && supported {
        UnitState::Walking
    } else {
        state
    }
}

/// A walking unit fights once its box overlaps that of a unit of the
/// other side, and a fighting unit walks again once none does.
pub open spec fn collide_rule(state: UnitState, engaged: bool) -> UnitState {
    if state == UnitState::Walking && engaged {
        UnitState::Melee
    } else if state == UnitState::Melee && !engaged {
        UnitState::Walking
    } else {
        state
    }
}

/// The state of a unit after a frame in which the three rules are applied
/// one after the other: falling, walking again, fighting. `supported` says
/// whether the terrain beneath its feet is solid, `engaged` whether its box
/// overlaps that of a unit of the other side.
pub open spec fn next_state_spec(state: UnitState, supported: bool, engaged: bool) -> UnitState {
    collide_rule(resume_rule(fall_rule(state, supported), supported), engaged)
}

/// The state after the rule on falling.
pub fn fall(state: UnitState, supported: bool) -> (next: UnitState)
    ensures
        next == fall_rule(state, supported),
{
    match state {
        UnitState::Walking => if supported {
            UnitState::Walking
        } else {
            UnitState::Falling
        },
        other => other,
    }
}

/// The state after the rule on walking again.
pub fn resume(state: UnitState, supported: bool) -> (next: UnitState)
    ensures
        next == resume_rule(state, supported),
{
    match state {
        UnitState::Falling => if supported {
            UnitState::Walking
        } else {
            UnitState::Falling
        },
        other => other,
    }
}

/// The state after the rule on fighting.
pub fn collide(state: UnitState, engaged: bool) -> (next: UnitState)
    ensures
        next == collide_rule(state, engaged),
{
    match state {
        UnitState::Walking => if engaged {
            UnitState::Melee
        } else {
            UnitState::Walking
        },
        UnitState::Melee => if engaged {
            UnitState::Melee
        } else {
            UnitState::Walking
        },
        other => other,
    }
}

/// The state of a unit after a frame in which the three rules are applied
/// one after the other.
pub fn next_state(state: UnitState, supported: bool, engaged: bool) -> (next: UnitState)
    ensures
        next == next_state_spec(state, supported, engaged),
{
    collide(resume(fall(state, supported), supported), engaged)
}

/// A walking unit that has lost its support is falling when the frame is
/// over. A falling unit that has support again is no longer falling when
/// the frame is over: it walks, or it fights where an opponent stands in
/// its way. A unit that neither loses nor regains support neither starts
/// nor stops falling.
pub proof fn lemma_fall_and_resume(state: UnitState, supported: bool, engaged: bool)
    ensures
        state == UnitState::Walking && !supported ==> next_state_spec(state, supported, engaged)
            == UnitState::Falling,
        state == UnitState::Falling && supported ==> resume_rule(state, supported)
            == UnitState::Walking && next_state_spec(state, supported, engaged)
            != UnitState::Falling,
        state == UnitState::Falling && supported && !engaged ==> next_state_spec(
            state,
            supported,
            engaged,
        ) == UnitState::Walking,
        state == UnitState::Falling && !supported ==> next_state_spec(state, supported, engaged)
            == UnitState::Falling,
        state != UnitState::Falling && supported ==> next_state_spec(state, supported, engaged)
            != UnitState::Falling,
        state == UnitState::Walking && supported && !engaged ==> next_state_spec(
            state,
            supported,
            engaged,
        ) == UnitState::Walking,
{
}

/// Where a walker at `x` stands after a step of length `step` towards
/// `dest`: at `dest` when the step reaches it, else a step nearer. A step
/// that is not positive moves nothing.
pub open spec fn approached(x: int, dest: int, step: int) -> int {
    if step <= 0 {
        x
    } else if x < dest {
        if dest - x <= step {
            dest
        } else {
            x + step
        }
    } else if x > dest {
        if x - dest <= step {
            dest
        } else {
            x - step
        }
    } else {
        x
    }
}

/// Where a walker at `x` stands after a step of length `step` towards
/// `dest`.
pub fn step_toward(x: i64, dest: i64, step: i64) -> (r: i64)
    ensures
        r == approached(x as int, dest as int, step as int),
{
    if step <= 0 {
        x
    } else if x < dest {
        if dest as i128 - x as i128 <= step as i128 {
            dest
        } else {
            x + step
        }
    } else if x > dest {
        if x as i128 - dest as i128 <= step as i128 {
            dest
        } else {
            x - step
        }
    } else {
        x
    }
}

/// A step never carries the walker past the destination, never away from
/// it, and a walker at the destination stays there.
pub proof fn lemma_no_overshoot(x: int, dest: int, step: int)
    ensures
        x <= dest ==> x <= approached(x, dest, step) <= dest,
        x >= dest ==> dest <= approached(x, dest, step) <= x,
        approached(dest, dest, step) == dest,
{
}

} // verus!
