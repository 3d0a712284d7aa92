//! A timer that lets an action happen at most once per interval of
//! elapsed time, however the time is cut into frames.

use crate::physics::DeltaTime;
use vstd::prelude::*;

verus! {

/// An interval, and the time that has passed since the timer last fired,
/// both in nanoseconds. The elapsed time stops counting at `u64::MAX`.
#[derive(Clone, Copy, Debug, PartialEq, Eq, Structural)]
pub struct Cooldown {
    pub interval: u64,
    pub elapsed: u64,
}

/// One frame as the timer sees it: its length in nanoseconds, and whether
/// the action is wanted in it.
pub struct Frame {
    pub nanos: nat,
    pub wanted: bool,
}

/// `v`, or `u64::MAX` where `v` is larger.
pub open spec fn capped(v: int) -> int {
    if v > u64::MAX {
        u64::MAX as int
    } else {
        v
    }
}

impl Cooldown {
    /// Whether the timer fires in a frame of `nanos` nanoseconds in which
    /// the action is wanted or not.
    pub open spec fn fires(self, nanos: nat, wanted: bool) -> bool {
        wanted && capped(self.elapsed + nanos) >= self.interval
    }

    /// The timer after such a frame: back at zero when it fired, else
    /// further along.
    pub open spec fn ticked(self, nanos: nat, wanted: bool) -> Cooldown {
        Cooldown {
            interval: self.interval,
            elapsed: if self.fires(nanos, wanted) {
                0
            } else {
                capped(self.elapsed + nanos) as u64
            },
        }
    }

    /// How often the timer fires over the frames `frames`, first to last.
    pub open spec fn shots(self, frames: Seq<Frame>) -> nat
        decreases frames.len(),
    {
        if frames.len() == 0 {
            0
        } else {
            let first = frames[0];
            let fired: nat = if self.fires(first.nanos, first.wanted) {
                1
            } else {
                0
            };
            fired + self.ticked(first.nanos, first.wanted).shots(frames.subrange(1, frames.len() as int))
        }
    }

    /// A timer that has to wait a whole interval before it fires.
    pub fn new(interval: u64) -> (c: Cooldown)
        ensures
            c == (Cooldown { interval, elapsed: 0 }),
    {
        Cooldown { interval, elapsed: 0 }
    }

    /// A timer that fires in the first frame in which the action is wanted.
    pub fn ready(interval: u64) -> (c: Cooldown)
        ensures
            c == (Cooldown { interval, elapsed: interval }),
    {
        Cooldown { interval, elapsed: interval }
    }

    /// Lets the time `dt` pass, and says whether the timer fires.
    pub fn tick(&mut self, dt: &DeltaTime, wanted: bool) -> (fired: bool)
        ensures
            fired == old(self).fires(dt@, wanted),
            *final(self) == old(self).ticked(dt@, wanted),
    {
        let sum: u128 = self.elapsed as u128 + dt.as_nanos();
        let now: u64 = if sum > u64::MAX as u128 {
            u64::MAX
        } else {
            sum as u64
        };
        if wanted && now >= self.interval {
            self.elapsed = 0;
            true
        } else {
            self.elapsed = now;
            false
        }
    }
}

/// The length of the frames `frames` together, in nanoseconds.
pub open spec fn total_nanos(frames: Seq<Frame>) -> nat
    decreases frames.len(),
{
    if frames.len() == 0 {
        0
    } else {
        frames[0].nanos + total_nanos(frames.subrange(1, frames.len() as int))
    }
}

/// A timer fires at most once per interval of elapsed time: over any
/// frames, the intervals that its shots account for fit into the time that
/// had elapsed at the start plus the time of the frames. The bound speaks
/// of elapsed time alone, not of the number of frames.
pub proof fn lemma_cadence(c: Cooldown, frames: Seq<Frame>)
    ensures
        c.shots(frames) * c.interval <= c.elapsed + total_nanos(frames),
    decreases frames.len(),
{
    if frames.len() == 0 {
        assert(c.shots(frames) * c.interval == 0) by (nonlinear_arith)
            requires
                c.shots(frames) == 0,
        ;
    } else {
        let first = frames[0];
        let rest = frames.subrange(1, frames.len() as int);
        let next = c.ticked(first.nanos, first.wanted);
        lemma_cadence(next, rest);
        let s = next.shots(rest);
        let i = c.interval as int;
        if c.fires(first.nanos, first.wanted) {
            assert((1 + s) * i == i + s * i) by (nonlinear_arith);
        }
    }
}

/// A timer that starts at zero fires at most once in any stretch of
/// frames shorter than twice its interval: a second shot takes a second
/// interval.
pub proof fn lemma_one_shot_per_interval(c: Cooldown, frames: Seq<Frame>)
    requires
        c.elapsed == 0,
        total_nanos(frames) < 2 * c.interval,
    ensures
        c.shots(frames) <= 1,
{
    lemma_cadence(c, frames);
    let s = c.shots(frames);
    let i = c.interval as int;
    if s >= 2 {
        assert(s * i >= 2 * i) by (nonlinear_arith)
            requires
                s >= 2,
                i >= 0,
        ;
    }
}

} // verus!
