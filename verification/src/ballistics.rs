//! How far the stepwise integration strays from a fall in free flight.
//!
//! A body that falls from rest for the time `t` under the gravity `g` has
//! fallen `g * t * t / 2`. Stepped through `n` frames of the length `dt`,
//! the integration overshoots that by at most `g * dt * t / 2`, the
//! surplus of its method, and loses at most one unit per frame to rounding.

use crate::physics::{integrated, travelled, Gravity, Position, Velocity};
use vstd::arithmetic::div_mod::{lemma_fundamental_div_mod, lemma_mod_bound};
use vstd::prelude::*;

verus! {

/// Where a body is and how it moves after `n` frames of `nanos`
/// nanoseconds each, when it starts at rest in the origin.
pub open spec fn fallen(g: Gravity, nanos: nat, n: nat) -> (Position, Velocity)
    decreases n,
{
    if n == 0 {
        (Position { x: 0, y: 0 }, Velocity { x: 0, y: 0 })
    } else {
        let before = fallen(g, nanos, (n - 1) as nat);
        integrated(before.0, before.1, g, nanos)
    }
}

/// Whether a fall of `n` frames stays within the range of the numbers:
/// neither the velocity nor the place of free flight leaves it.
pub open spec fn fall_fits(g: Gravity, nanos: nat, n: nat) -> bool {
    &&& g.0 >= 0
    &&& n * (g.0 * nanos) <= i64::MAX * 1_000_000_000
    &&& (g.0 * nanos) * nanos * (n * (n + 1)) <= 2 * (1_000_000_000 * 1_000_000_000) * i64::MAX
}

proof fn lemma_floor_bounds(x: int)
    requires
        x >= 0,
    ensures
        1_000_000_000 * (x / 1_000_000_000) <= x < 1_000_000_000 * (x / 1_000_000_000)
            + 1_000_000_000,
        x / 1_000_000_000 >= 0,
{
    lemma_fundamental_div_mod(x, 1_000_000_000);
    lemma_mod_bound(x, 1_000_000_000);
}

proof fn lemma_fits_earlier(g: Gravity, nanos: nat, n: nat)
    requires
        fall_fits(g, nanos, n),
        n > 0,
    ensures
        fall_fits(g, nanos, (n - 1) as nat),
{
    let c = g.0 * nanos;
    assert(c >= 0) by (nonlinear_arith)
        requires
            c == g.0 * nanos,
            g.0 >= 0,
            nanos >= 0,
    ;
    assert((n - 1) * c <= n * c) by (nonlinear_arith)
        requires
            c >= 0,
    ;
    let d = c * nanos;
    assert(d >= 0) by (nonlinear_arith)
        requires
            d == c * nanos,
            c >= 0,
            nanos >= 0,
    ;
    assert(d * ((n - 1) * n) <= d * (n * (n + 1))) by (nonlinear_arith)
        requires
            d >= 0,
            n >= 1,
    ;
}

/// A fall from rest, stepped through `n` frames that stay within the
/// range of the numbers, gains the same velocity in every frame, and
/// covers the sum of the frames' velocities but for less than a unit per
/// frame. Measured against free flight over the same time, it is ahead by
/// half the gravity times the frame's length times the time, the surplus
/// of the method, less what rounding takes: at most a unit per frame from
/// the place, and as much from the velocity for each frame that it then
/// acts in.
pub proof fn lemma_fall_error(g: Gravity, nanos: nat, n: nat)
    requires
        fall_fits(g, nanos, n),
    ensures
        ({
            let after = fallen(g, nanos, n);
            let gain = travelled(g.0 as int, nanos);
            let time = n * nanos;
            &&& after.0.x == 0
            &&& after.1.x == 0
            &&& 0 <= gain
            &&& after.1.y == n * gain
            &&& 0 <= after.0.y
            &&& 2 * 1_000_000_000 * after.0.y <= (gain * nanos) * (n * (n + 1))
            &&& (gain * nanos) * (n * (n + 1)) <= 2 * 1_000_000_000 * after.0.y + 2
                * 1_000_000_000 * n
            &&& 2 * (1_000_000_000 * 1_000_000_000) * after.0.y <= g.0 * (time * time) + (g.0
                * nanos) * time
            &&& g.0 * (time * time) + (g.0 * nanos) * time <= 2 * (1_000_000_000 * 1_000_000_000)
                * after.0.y + 1_000_000_000 * (nanos * (n * (n + 1))) + 2 * (1_000_000_000
                * 1_000_000_000) * n
        }),
    decreases n,
{
    let b: int = 1_000_000_000;
    let gain = travelled(g.0 as int, nanos);
    let c = g.0 * nanos;
    assert(c >= 0) by (nonlinear_arith)
        requires
            c == g.0 * nanos,
            g.0 >= 0,
            nanos >= 0,
    ;
    lemma_floor_bounds(c);
    assert(gain == c / b);
    if n == 0 {
        let time = n * nanos;
        assert(n * gain == 0 && time == 0 && (gain * nanos) * (n * (n + 1)) == 0 && g.0 * (time
            * time) + c * time == 0 && nanos * (n * (n + 1)) == 0) by (nonlinear_arith)
            requires
                n == 0,
                time == n * nanos,
        ;
    } else {
        lemma_fits_earlier(g, nanos, n);
        lemma_fall_error(g, nanos, (n - 1) as nat);
        let before = fallen(g, nanos, (n - 1) as nat);
        let after = fallen(g, nanos, n);
        let m = n - 1;
        // The velocity.
        assert(n * gain * b <= n * c) by (nonlinear_arith)
            requires
                b * gain <= c,
                n >= 0,
        ;
        assert(n * gain <= i64::MAX) by (nonlinear_arith)
            requires
                n * gain * b <= n * c,
                n * c <= i64::MAX * b,
                b == 1_000_000_000,
        ;
        assert(m * gain + gain == n * gain) by (nonlinear_arith)
            requires
                m == n - 1,
        ;
        assert(0 <= n * gain) by (nonlinear_arith)
            requires
                n >= 0,
                gain >= 0,
        ;
        let v = n * gain;
        assert(after.1.y == v);
        // The step of this frame.
        let e = v * nanos;
        assert(e >= 0) by (nonlinear_arith)
            requires
                e == v * nanos,
                v >= 0,
                nanos >= 0,
        ;
        lemma_floor_bounds(e);
        let s = e / b;
        assert(travelled(v, nanos) == s);
        let gd = gain * nanos;
        assert(e == n * gd) by (nonlinear_arith)
            requires
                e == (n * gain) * nanos,
                gd == gain * nanos,
        ;
        assert(gd >= 0) by (nonlinear_arith)
            requires
                gd == gain * nanos,
                gain >= 0,
                nanos >= 0,
        ;
        // The place: the sums.
        assert(gd * (m * (m + 1)) + 2 * (n * gd) == gd * (n * (n + 1))) by (nonlinear_arith)
            requires
                m == n - 1,
        ;
        let y0 = before.0.y as int;
        let y = y0 + s;
        assert(2 * b * y0 <= gd * (m * (m + 1)));
        assert(gd * (m * (m + 1)) <= 2 * b * y0 + 2 * b * m);
        assert(2 * b * y <= gd * (n * (n + 1))) by (nonlinear_arith)
            requires
                2 * b * y0 <= gd * (m * (m + 1)),
                b * s <= e,
                e == n * gd,
                y == y0 + s,
                gd * (m * (m + 1)) + 2 * (n * gd) == gd * (n * (n + 1)),
        ;
        assert(gd * (n * (n + 1)) <= 2 * b * y + 2 * b * n) by (nonlinear_arith)
            requires
                gd * (m * (m + 1)) <= 2 * b * y0 + 2 * b * m,
                e < b * s + b,
                e == n * gd,
                y == y0 + s,
                m == n - 1,
                gd * (m * (m + 1)) + 2 * (n * gd) == gd * (n * (n + 1)),
        ;
        // The place fits.
        let d = c * nanos;
        assert(gd * b <= d) by (nonlinear_arith)
            requires
                gd == gain * nanos,
                d == c * nanos,
                b * gain <= c,
                nanos >= 0,
        ;
        let k = n * (n + 1);
        assert(k >= 0) by (nonlinear_arith)
            requires
                k == n * (n + 1),
                n >= 0,
        ;
        assert((gd * k) * b <= d * k) by (nonlinear_arith)
            requires
                gd * b <= d,
                k >= 0,
        ;
        assert(y <= i64::MAX) by (nonlinear_arith)
            requires
                2 * b * y <= gd * k,
                (gd * k) * b <= d * k,
                d * k <= 2 * (b * b) * i64::MAX,
                b == 1_000_000_000,
        ;
        assert(after.0.y == y);
        // Against free flight.
        let time = n * nanos;
        assert(d * k == g.0 * (time * time) + c * time) by (nonlinear_arith)
            requires
                d == c * nanos,
                c == g.0 * nanos,
                k == n * (n + 1),
                time == n * nanos,
        ;
        assert(2 * (b * b) * y <= d * k) by (nonlinear_arith)
            requires
                2 * b * y <= gd * k,
                (gd * k) * b <= d * k,
                b > 0,
        ;
        assert(d <= gd * b + b * nanos) by (nonlinear_arith)
            requires
                gd == gain * nanos,
                d == c * nanos,
                c < b * gain + b,
                nanos >= 0,
                b > 0,
                c >= 0,
        ;
        assert(d * k <= (gd * k) * b + b * (nanos * k)) by (nonlinear_arith)
            requires
                d <= gd * b + b * nanos,
                k >= 0,
        ;
        assert(d * k <= 2 * (b * b) * y + b * (nanos * k) + 2 * (b * b) * n) by (nonlinear_arith)
            requires
                d * k <= (gd * k) * b + b * (nanos * k),
                gd * k <= 2 * b * y + 2 * b * n,
                b > 0,
        ;
        assert(after.0.x == 0);
        assert(after.1.x == 0);
        assert(0 <= after.0.y);
        assert(2 * 1_000_000_000 * after.0.y <= (gain * nanos) * (n * (n + 1)));
        assert((gain * nanos) * (n * (n + 1)) <= 2 * 1_000_000_000 * after.0.y + 2 * 1_000_000_000
            * n);
        assert(2 * (1_000_000_000 * 1_000_000_000) * after.0.y <= g.0 * (time * time) + (g.0
            * nanos) * time);
        assert(g.0 * (time * time) + (g.0 * nanos) * time <= 2 * (1_000_000_000 * 1_000_000_000)
            * after.0.y + 1_000_000_000 * (nanos * (n * (n + 1))) + 2 * (1_000_000_000
            * 1_000_000_000) * n);
    }
}

} // verus!
