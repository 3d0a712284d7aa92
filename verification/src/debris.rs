//! The debris that collapsed terrain turns into.

use crate::physics::{cell_middle, saturate_wide, Position, Velocity};
use vstd::prelude::*;

verus! {

/// The largest sideways speed, in units per second, that a piece of debris
/// starts with.
pub const MAX_DRIFT: i64 = 20_000;

/// Calls `rand::random_range` on the inclusive range from `lo` to `hi`,
/// which draws from the generator of the current thread; that generator
/// seeds itself from the system when it is first used. The contract claims
/// only that the number lies in the range. The range is never empty, on
/// which the call would panic.
#[verifier::external_body]
fn random_between(lo: i64, hi: i64) -> (r: i64)
    requires
        lo <= hi,
    ensures
        lo <= r <= hi,
{
    rand::random_range(lo..=hi)
}

/// The piece of debris that the cell `cell` turns into when it starts
/// with the sideways speed `drift`: it stands in the middle of the cell
/// and does not yet fall.
pub open spec fn debris_of(cell: (usize, usize), drift: i64) -> (Position, Velocity) {
    (
        Position { x: cell_middle(cell.0 as int) as i64, y: cell_middle(cell.1 as int) as i64 },
        Velocity { x: drift, y: 0 },
    )
}

fn middle(c: usize) -> (m: i64)
    ensures
        m == cell_middle(c as int),
{
    saturate_wide(c as i128 * 1000 + 500)
}

/// The piece of debris that the cell `cell` turns into when it starts
/// with the sideways speed `drift`.
pub fn debris_particle(cell: (usize, usize), drift: i64) -> (body: (Position, Velocity))
    ensures
        body == debris_of(cell, drift),
{
    (Position { x: middle(cell.0), y: middle(cell.1) }, Velocity { x: drift, y: 0 })
}

/// Whether `bodies` are the pieces of debris of `cells`, one for each in
/// the same order, each with a sideways speed of at most `MAX_DRIFT`.
pub open spec fn scattered(cells: Seq<(usize, usize)>, bodies: Seq<(Position, Velocity)>) -> bool {
    &&& bodies.len() == cells.len()
    &&& forall|i: int|
        0 <= i < cells.len() ==> -MAX_DRIFT <= (#[trigger] bodies[i]).1.x <= MAX_DRIFT && bodies[i]
            == debris_of(cells[i], bodies[i].1.x)
}

/// Turns each of `cells` into a piece of debris with a random sideways
/// speed of at most `MAX_DRIFT`.
pub fn scatter(cells: &Vec<(usize, usize)>) -> (bodies: Vec<(Position, Velocity)>)
    ensures
        scattered(cells@, bodies@),
{
    let mut bodies: Vec<(Position, Velocity)> = Vec::new();
    let mut i: usize = 0;
    while i < cells.len()
        invariant
            i <= cells.len(),
            scattered(cells@.take(i as int), bodies@),
        decreases cells.len() - i,
    {
        let drift: i64 = random_between(-MAX_DRIFT, MAX_DRIFT);
        let body: (Position, Velocity) = debris_particle(cells[i], drift);
        bodies.push(body);
        proof {
            let done = cells@.take(i as int + 1);
            assert forall|k: int| 0 <= k < done.len() implies -MAX_DRIFT <= (#[trigger] bodies@[k]).1.x
                <= MAX_DRIFT && bodies@[k] == debris_of(done[k], bodies@[k].1.x) by {
                if k < i {
                    assert(cells@.take(i as int)[k] == done[k]);
                }
            }
        }
        i += 1;
    }
    assert(cells@.take(i as int) =~= cells@);
    bodies
}

} // verus!
