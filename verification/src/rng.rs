//! The one randomness source of the simulation.
//!
//! Every random decision — drop rolls, power-up selection, spawn angles
//! and distance jitter — draws a uniform integer below a bound through
//! this wrapper, and the logic that consumes a draw is verified for every
//! value the bound admits.

use vstd::prelude::*;

use rand::Rng;

verus! {

/// Relies on rand::Rng::gen_range on the half-open range `0..n`: the
/// result is uniform in the range, so it is below `n`. Nothing more can be
/// promised of a random draw.
#[verifier::external_body]
pub(crate) fn rand_below(n: u32) -> (r: u32)
    requires
        n > 0,
    ensures
        r < n,
{
    rand::thread_rng().gen_range(0..n)
}

} // verus!
