//! What a game is set up with, and what a purchase brings: the units that
//! can be bought, the turrets of the castle, and where they stand.

use crate::cadence::Cooldown;
use crate::geom::BoundingBox;
use crate::mask::Mask;
use crate::physics::{cell_middle, middle_of_cell, Position};
use crate::store::ID_LIMIT;
use crate::turret::{Turret, TurretOffset};
use crate::unit::{Destination, Faction, Health, Melee, Walk};
use crate::world::{Spawn, World, WorldView};
use vstd::prelude::*;

verus! {

/// A purchase that the player can make.
#[derive(Clone, Copy, Debug, PartialEq, Eq, Structural)]
pub enum Purchase {
    Archer,
    Soldier,
}

/// The column in which bought units enter.
pub const ENTRY_COLUMN: i64 = 10;

/// The column of the first turret.
pub const TURRET_COLUMN: i64 = 40;

/// The distance from one turret to the next, in columns.
pub const TURRET_SPACING: i64 = 60;

/// The shape of a unit, measured from its feet: ten cells wide, twenty
/// tall.
pub open spec fn unit_shape() -> BoundingBox {
    BoundingBox { min_x: -5000i64, min_y: -20000i64, max_x: 5000, max_y: 0 }
}

/// The bow of an archer.
pub open spec fn bow() -> Turret {
    Turret {
        cooldown: Cooldown { interval: 2_000_000_000, elapsed: 0 },
        range_x: 300_000,
        range_y: 100_000,
        damage: 10,
        blast: 3,
    }
}

/// The gun of a turret of the castle, ready to fire.
pub open spec fn gun() -> Turret {
    Turret {
        cooldown: Cooldown { interval: 3_000_000_000, elapsed: 3_000_000_000 },
        range_x: 600_000,
        range_y: 300_000,
        damage: 40,
        blast: 12,
    }
}

/// The place of a body that stands in the column `x`: in the middle of
/// the cell above the topmost solid cell, or of the ground row where the
/// column is empty.
pub open spec fn standing_in(mask: Mask, x: int) -> Position {
    let row = match mask.column_top(x, 0) {
        Some(top) => top - 1,
        None => mask.height - 1,
    };
    Position { x: cell_middle(x) as i64, y: cell_middle(row) as i64 }
}

/// The unit of the kind `what` that fights for `side`, entering at `at`
/// and bound for the column `goal`.
pub open spec fn recruit(what: Purchase, side: Faction, at: Position, goal: int) -> Spawn {
    Spawn::Unit {
        position: at,
        faction: side,
        health: match what {
            Purchase::Archer => Health { current: 60, max: 60 },
            Purchase::Soldier => Health { current: 100, max: 100 },
        },
        walk: Walk { speed: 50_000 },
        destination: Destination(cell_middle(goal) as i64),
        shape: unit_shape(),
        melee: match what {
            Purchase::Archer => Melee {
                damage: 5,
                cooldown: Cooldown { interval: 1_000_000_000, elapsed: 0 },
            },
            Purchase::Soldier => Melee {
                damage: 20,
                cooldown: Cooldown { interval: 500_000_000, elapsed: 0 },
            },
        },
    }
}

impl WorldView {
    /// The column that bought units are bound for: ten cells from the far
    /// side of the terrain.
    pub open spec fn goal_column(self) -> int {
        self.terrain.width - 10
    }

    /// The world after the purchase `what`: a unit has entered, and an
    /// archer carries a bow.
    pub open spec fn bought(self, what: Purchase) -> WorldView {
        let made = self.spawned(
            recruit(
                what,
                Faction::Ally,
                standing_in(self.terrain, ENTRY_COLUMN as int),
                self.goal_column(),
            ),
        );
        if what == Purchase::Archer && self.next_id < ID_LIMIT {
            WorldView { turrets: made.turrets.insert(self.next_id, bow()), ..made }
        } else {
            made
        }
    }

    /// The world after an enemy soldier has entered at the far side, bound
    /// for the column in which bought units enter.
    pub open spec fn invaded(self) -> WorldView {
        self.spawned(
            recruit(
                Purchase::Soldier,
                Faction::Enemy,
                standing_in(self.terrain, self.goal_column()),
                ENTRY_COLUMN as int,
            ),
        )
    }

    /// The world with one more turret, standing in the column `x`.
    pub open spec fn fortified(self, x: int) -> WorldView {
        self.spawned(
            Spawn::Turret {
                position: standing_in(self.terrain, x),
                offset: TurretOffset(0, -10000i64),
                turret: gun(),
            },
        )
    }

    /// The world with `count` more turrets, the first in `TURRET_COLUMN`
    /// and each `TURRET_SPACING` columns after the one before.
    pub open spec fn fortified_all(self, count: nat) -> WorldView
        decreases count,
    {
        if count == 0 {
            self
        } else {
            self.fortified_all((count - 1) as nat).fortified(
                TURRET_COLUMN + (count - 1) * TURRET_SPACING,
            )
        }
    }
}

impl World {
    /// The place of a body that stands in the column `x`.
    pub fn standing_in(&self, x: i64) -> (p: Position)
        ensures
            p == standing_in(self@.terrain, x as int),
    {
        let row: i64 = match self.terrain.surface(x) {
            Some(top) => top as i64 - 1,
            None => self.terrain.height() as i64 - 1,
        };
        Position { x: middle_of_cell(x), y: middle_of_cell(row) }
    }

    /// Creates the unit of the kind `what` that fights for `side`, entering
    /// in the column `from` and bound for the column `goal`.
    fn enlist(&mut self, what: Purchase, side: Faction, from: i64, goal: i64) -> (made: Option<
        usize,
    >)
        ensures
            final(self)@ == old(self)@.spawned(
                recruit(what, side, standing_in(old(self)@.terrain, from as int), goal as int),
            ),
            made == (if old(self)@.next_id < ID_LIMIT {
                Some(old(self)@.next_id)
            } else {
                None
            }),
    {
        let at: Position = self.standing_in(from);
        let health: Health = match what {
            Purchase::Archer => Health { current: 60, max: 60 },
            Purchase::Soldier => Health { current: 100, max: 100 },
        };
        let melee: Melee = match what {
            Purchase::Archer => Melee {
                damage: 5,
                cooldown: Cooldown { interval: 1_000_000_000, elapsed: 0 },
            },
            Purchase::Soldier => Melee {
                damage: 20,
                cooldown: Cooldown { interval: 500_000_000, elapsed: 0 },
            },
        };
        self.spawn(
            Spawn::Unit {
                position: at,
                faction: side,
                health,
                walk: Walk { speed: 50_000 },
                destination: Destination(middle_of_cell(goal)),
                shape: BoundingBox { min_x: -5000, min_y: -20000, max_x: 5000, max_y: 0 },
                melee,
            },
        )
    }

    /// Answers a purchase: the unit enters at once. Returns its id, or
    /// `None` once the ids are used up.
    pub fn buy(&mut self, what: Purchase) -> (made: Option<usize>)
        ensures
            final(self)@ == old(self)@.bought(what),
            made == (if old(self)@.next_id < ID_LIMIT {
                Some(old(self)@.next_id)
            } else {
                None
            }),
    {
        let goal: i64 = self.terrain.width() as i64 - 10;
        let made: Option<usize> = self.enlist(what, Faction::Ally, ENTRY_COLUMN, goal);
        match what {
            Purchase::Archer => {
                match made {
                    Some(id) => {
                        self.turrets.insert(
                            id,
                            Turret {
                                cooldown: Cooldown { interval: 2_000_000_000, elapsed: 0 },
                                range_x: 300_000,
                                range_y: 100_000,
                                damage: 10,
                                blast: 3,
                            },
                        );
                    },
                    None => {},
                }
            },
            Purchase::Soldier => {},
        }
        made
    }

    /// An archer enters.
    pub fn buy_archer(&mut self) -> (made: Option<usize>)
        ensures
            final(self)@ == old(self)@.bought(Purchase::Archer),
            made == (if old(self)@.next_id < ID_LIMIT {
                Some(old(self)@.next_id)
            } else {
                None
            }),
    {
        self.buy(Purchase::Archer)
    }

    /// A soldier enters.
    pub fn buy_soldier(&mut self) -> (made: Option<usize>)
        ensures
            final(self)@ == old(self)@.bought(Purchase::Soldier),
            made == (if old(self)@.next_id < ID_LIMIT {
                Some(old(self)@.next_id)
            } else {
                None
            }),
    {
        self.buy(Purchase::Soldier)
    }

    /// An enemy soldier enters at the far side.
    pub fn invade(&mut self) -> (made: Option<usize>)
        ensures
            final(self)@ == old(self)@.invaded(),
            made == (if old(self)@.next_id < ID_LIMIT {
                Some(old(self)@.next_id)
            } else {
                None
            }),
    {
        let from: i64 = self.terrain.width() as i64 - 10;
        self.enlist(Purchase::Soldier, Faction::Enemy, from, ENTRY_COLUMN)
    }

    /// Sets up `count` turrets, the first in `TURRET_COLUMN` and each
    /// `TURRET_SPACING` columns after the one before.
    pub fn place_turrets(&mut self, count: u32)
        ensures
            final(self)@ == old(self)@.fortified_all(count as nat),
    {
        let mut i: u32 = 0;
        while i < count
            invariant
                i <= count,
                self@ == old(self)@.fortified_all(i as nat),
            decreases count - i,
        {
            let x: i64 = TURRET_COLUMN + i as i64 * TURRET_SPACING;
            let at: Position = self.standing_in(x);
            self.spawn(
                Spawn::Turret {
                    position: at,
                    offset: TurretOffset(0, -10000),
                    turret: Turret {
                        cooldown: Cooldown { interval: 3_000_000_000, elapsed: 3_000_000_000 },
                        range_x: 600_000,
                        range_y: 300_000,
                        damage: 40,
                        blast: 12,
                    },
                },
            );
            i += 1;
        }
    }
}

} // verus!
