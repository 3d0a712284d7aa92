//! Time, positions and velocities, and the integration step.
//!
//! Lengths are whole world units, a thousand to the terrain cell; rates are
//! units per second. Every result that would leave the range of `i64`
//! stays at the end of that range.

use crate::mask::clamp;
use vstd::arithmetic::div_mod::lemma_hoist_over_denominator;
use vstd::prelude::*;

verus! {

/// Number of world units in one terrain cell.
pub const UNITS_PER_CELL: i64 = 1000;

/// The cell coordinates that a position can report lie between
/// `-CELL_LIMIT` and `CELL_LIMIT`.
pub const CELL_LIMIT: i32 = 100_000_000;

/// Time elapsed since the previous frame, as whole seconds plus a
/// sub-second part in nanoseconds.
#[derive(Clone, Copy, Debug)]
pub struct DeltaTime {
    secs: u64,
    nanos: u32,
}

impl View for DeltaTime {
    type V = nat;

    /// The interval in nanoseconds.
    closed spec fn view(&self) -> nat {
        (self.secs * 1_000_000_000 + self.nanos) as nat
    }
}

impl DeltaTime {
    #[verifier::type_invariant]
    spec fn inv(self) -> bool {
        self.nanos < 1_000_000_000
    }

    /// An interval of `millis` milliseconds.
    pub fn new(millis: u64) -> (dt: DeltaTime)
        ensures
            dt@ == millis * 1_000_000,
    {
        let rest: u32 = (millis % 1000) as u32;
        DeltaTime { secs: millis / 1000, nanos: rest * 1_000_000 }
    }

    /// An interval of `nanos` nanoseconds.
    pub fn from_nanos(nanos: u64) -> (dt: DeltaTime)
        ensures
            dt@ == nanos,
    {
        DeltaTime { secs: nanos / 1_000_000_000, nanos: (nanos % 1_000_000_000) as u32 }
    }

    /// The whole seconds of the interval.
    pub fn as_secs(&self) -> (s: u64)
        ensures
            s == self@ / 1_000_000_000,
    {
        proof {
            use_type_invariant(self);
        }
        self.secs
    }

    /// The part of the interval below one second, in nanoseconds.
    pub fn subsec_nanos(&self) -> (n: u32)
        ensures
            n == self@ % 1_000_000_000,
    {
        proof {
            use_type_invariant(self);
        }
        self.nanos
    }

    /// The interval in nanoseconds.
    pub fn as_nanos(&self) -> (n: u128)
        ensures
            n == self@,
            n < 0x1_0000_0000_0000_0000 * 1_000_000_000,
    {
        proof {
            use_type_invariant(self);
        }
        self.secs as u128 * 1_000_000_000 + self.nanos as u128
    }
}

/// A place in the world. `y` grows downwards.
#[derive(Clone, Copy, Debug, PartialEq, Eq, Structural)]
pub struct Position {
    pub x: i64,
    pub y: i64,
}

/// A rate of change of a position, in units per second.
#[derive(Clone, Copy, Debug, PartialEq, Eq, Structural)]
pub struct Velocity {
    pub x: i64,
    pub y: i64,
}

/// The downward acceleration, in units per second per second.
#[derive(Clone, Copy, Debug, PartialEq, Eq, Structural)]
pub struct Gravity(pub i64);

/// The value nearest to `v` that an `i64` holds.
pub open spec fn saturate(v: int) -> int {
    clamp(v, i64::MIN as int, i64::MAX as int)
}

/// `v` divided by `d`, rounded towards zero.
pub open spec fn div_toward_zero(v: int, d: int) -> int {
    if v >= 0 {
        v / d
    } else {
        -((-v) / d)
    }
}

/// The change that the rate `rate` brings about in `nanos` nanoseconds,
/// rounded towards zero.
pub open spec fn travelled(rate: int, nanos: nat) -> int {
    div_toward_zero(rate * nanos, 1_000_000_000)
}

/// The cell that holds the world coordinate `v`, kept within `CELL_LIMIT`.
pub open spec fn cell_of(v: int) -> int {
    clamp(div_toward_zero(v, UNITS_PER_CELL as int), -(CELL_LIMIT as int), CELL_LIMIT as int)
}

/// The value reached from `value` at the rate `rate` in `nanos`
/// nanoseconds: a place at a velocity, or a velocity at an acceleration.
pub open spec fn stepped(value: int, rate: int, nanos: nat) -> int {
    saturate(value + travelled(rate, nanos))
}

proof fn lemma_split_product(m: int, secs: int, nanos: int)
    requires
        0 <= m,
        0 <= secs,
        0 <= nanos,
    ensures
        (m * (secs * 1_000_000_000 + nanos)) / 1_000_000_000 == m * secs + (m * nanos)
            / 1_000_000_000,
{
    assert(m * (secs * 1_000_000_000 + nanos) == m * nanos + (m * secs) * 1_000_000_000)
        by (nonlinear_arith);
    lemma_hoist_over_denominator(m * nanos, m * secs, 1_000_000_000);
}

/// The change that the rate `rate` brings about during `dt`, kept within
/// a range wide enough that adding it to any `i64` saturates as the exact
/// change would.
fn travel_wide(rate: i64, dt: &DeltaTime) -> (r: i128)
    ensures
        r == clamp(
            travelled(rate as int, dt@),
            -0x4_0000_0000_0000_0000,
            0x4_0000_0000_0000_0000,
        ),
{
    proof {
        use_type_invariant(dt);
    }
    let wide: i128 = rate as i128;
    let m: u128 = if wide < 0 {
        (-wide) as u128
    } else {
        wide as u128
    };
    let secs: u128 = dt.secs as u128;
    let nanos: u128 = dt.nanos as u128;
    assert(m * secs <= 0x8000_0000_0000_0000 * 0xffff_ffff_ffff_ffff && m * nanos
        <= 0x8000_0000_0000_0000 * 1_000_000_000 && 0 <= m * nanos) by (nonlinear_arith)
        requires
            m <= 0x8000_0000_0000_0000,
            secs <= 0xffff_ffff_ffff_ffff,
            nanos <= 1_000_000_000,
    ;
    let whole: u128 = m * secs;
    let part: u128 = (m * nanos) / 1_000_000_000;
    let total: u128 = whole + part;
    proof {
        lemma_split_product(m as int, secs as int, nanos as int);
        assert(dt@ == secs * 1_000_000_000 + nanos);
        assert(rate * dt@ == m * dt@ || rate * dt@ == -(m * dt@)) by (nonlinear_arith)
            requires
                rate == m || rate == -m,
        ;
        assert(0 <= m * dt@) by (nonlinear_arith)
            requires
                0 <= m,
        ;
        assert(rate >= 0 ==> rate * dt@ >= 0) by (nonlinear_arith);
        assert(rate < 0 ==> rate * dt@ <= 0) by (nonlinear_arith);
        assert(total == (m * dt@) / 1_000_000_000);
    }
    let capped: i128 = if total > 0x4_0000_0000_0000_0000 {
        0x4_0000_0000_0000_0000
    } else {
        total as i128
    };
    if wide >= 0 {
        capped
    } else {
        -capped
    }
}

/// The value nearest to `v` that an `i64` holds.
pub fn saturate_wide(v: i128) -> (r: i64)
    ensures
        r == saturate(v as int),
{
    if v > i64::MAX as i128 {
        i64::MAX
    } else if v < i64::MIN as i128 {
        i64::MIN
    } else {
        v as i64
    }
}

/// `a + b`, kept within the range of `i64`.
pub fn add_saturating(a: i64, b: i64) -> (r: i64)
    ensures
        r == saturate(a + b),
{
    saturate_wide(a as i128 + b as i128)
}

/// The change that the rate `rate` brings about during `dt`.
pub fn travel(rate: i64, dt: &DeltaTime) -> (r: i64)
    ensures
        r == saturate(travelled(rate as int, dt@)),
{
    saturate_wide(travel_wide(rate, dt))
}

/// The value reached from `place` at the rate `rate` during `dt`.
pub fn advance(place: i64, rate: i64, dt: &DeltaTime) -> (r: i64)
    ensures
        r == stepped(place as int, rate as int, dt@),
{
    saturate_wide(place as i128 + travel_wide(rate, dt))
}

impl Position {
    /// The place with the given coordinates.
    pub fn new(x: i64, y: i64) -> (p: Position)
        ensures
            p == (Position { x, y }),
    {
        Position { x, y }
    }

    /// The terrain cell that holds this place, each coordinate kept within
    /// `CELL_LIMIT`.
    pub fn as_i32(&self) -> (c: (i32, i32))
        ensures
            c.0 == cell_of(self.x as int),
            c.1 == cell_of(self.y as int),
            -CELL_LIMIT <= c.0 <= CELL_LIMIT,
            -CELL_LIMIT <= c.1 <= CELL_LIMIT,
    {
        (cell_coordinate(self.x), cell_coordinate(self.y))
    }
}

/// The cell that holds the world coordinate `v`, kept within `CELL_LIMIT`.
pub fn cell_coordinate(v: i64) -> (c: i32)
    ensures
        c == cell_of(v as int),
        -CELL_LIMIT <= c <= CELL_LIMIT,
{
    let wide: i128 = v as i128;
    let m: u128 = if wide < 0 {
        (-wide) as u128
    } else {
        wide as u128
    };
    let q: u128 = m / 1000;
    if q > CELL_LIMIT as u128 {
        if wide < 0 {
            -CELL_LIMIT
        } else {
            CELL_LIMIT
        }
    } else if wide < 0 {
        -(q as i32)
    } else {
        q as i32
    }
}

/// The world coordinate of the middle of the cell `c`.
pub open spec fn cell_middle(c: int) -> int {
    saturate(c * UNITS_PER_CELL + UNITS_PER_CELL / 2)
}

/// The world coordinate of the middle of the cell `c`.
pub fn middle_of_cell(c: i64) -> (m: i64)
    ensures
        m == cell_middle(c as int),
{
    saturate_wide(c as i128 * 1000 + 500)
}

impl Velocity {
    /// The velocity with the given rates.
    pub fn new(x: i64, y: i64) -> (v: Velocity)
        ensures
            v == (Velocity { x, y }),
    {
        Velocity { x, y }
    }
}

/// Where a body stands and how it moves after one step of semi-implicit
/// Euler integration under gravity: the velocity takes up the gravity
/// first, and the new velocity moves the body.
pub open spec fn integrated(p: Position, v: Velocity, g: Gravity, nanos: nat) -> (
    Position,
    Velocity,
) {
    let vy = stepped(v.y as int, g.0 as int, nanos);
    (
        Position {
            x: stepped(p.x as int, v.x as int, nanos) as i64,
            y: stepped(p.y as int, vy, nanos) as i64,
        },
        Velocity { x: v.x, y: vy as i64 },
    )
}

/// Advances a body by one frame: gravity changes the vertical rate, then
/// the new rate moves the body.
pub fn integrate(p: Position, v: Velocity, g: Gravity, dt: &DeltaTime) -> (next: (
    Position,
    Velocity,
))
    ensures
        next == integrated(p, v, g, dt@),
{
    let vy: i64 = advance(v.y, g.0, dt);
    let x: i64 = advance(p.x, v.x, dt);
    let y: i64 = advance(p.y, vy, dt);
    (Position { x, y }, Velocity { x: v.x, y: vy })
}

} // verus!
