//! The source of the numbers that a tick draws.

use rand::rngs::StdRng;
use rand::{Rng, SeedableRng};
use vstd::prelude::*;
use crate::scalar::ONE_RAW;
use crate::tick::NodeDraw;
use crate::trig::FULL_TURN_RAW;

verus! {

/// The generator of `rand`; nothing is known of what it holds.
#[verifier::external_type_specification]
#[verifier::external_body]
pub struct ExStdRng(StdRng);

/// Calls `StdRng::seed_from_u64` of `rand`, which makes a generator from a
/// seed. Nothing is claimed of the generator.
#[verifier::external_body]
pub(crate) fn seeded_generator(seed: u64) -> StdRng {
    StdRng::seed_from_u64(seed)
}

/// Calls `Rng::gen_range` of `rand` on the range from zero to `bound`,
/// which panics on an empty range and else samples a number of the range:
/// the result is below `bound`.
#[verifier::external_body]
pub(crate) fn draw_below(generator: &mut StdRng, bound: u64) -> (r: u64)
    requires
        bound > 0,
    ensures
        r < bound,
{
    generator.gen_range(0..bound)
}

/// Draws the numbers for one node: two fractions of one and an angle
/// within a full turn.
pub fn draw_for_node(generator: &mut StdRng) -> (draw: NodeDraw)
    ensures
        draw.in_range(),
{
    let growth: u64 = draw_below(generator, ONE_RAW as u64);
    let branch: u64 = draw_below(generator, ONE_RAW as u64);
    let angle: u64 = draw_below(generator, FULL_TURN_RAW as u64);
    NodeDraw::from_counts(growth, branch, angle)
}

/// Draws the numbers for `count` nodes.
pub fn draw_for_all(generator: &mut StdRng, count: usize) -> (draws: Vec<NodeDraw>)
    ensures
        draws.len() == count,
        forall|i: int| 0 <= i < count ==> (#[trigger] draws[i]).in_range(),
{
    let mut draws: Vec<NodeDraw> = Vec::new();
    let mut i: usize = 0;
    while i < count
        invariant
            0 <= i <= count,
            draws.len() == i,
            forall|k: int| 0 <= k < i ==> (#[trigger] draws[k]).in_range(),
        decreases count - i,
    {
        let draw = draw_for_node(generator);
        draws.push(draw);
        i = i + 1;
    }
    draws
}

} // verus!
