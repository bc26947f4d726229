//! The one source of chance in the game.

use vstd::prelude::*;
use rand::Rng;

verus! {

/// Draws a number below `bound` from the thread's random generator.
///
/// Trusted: the body calls `rand::Rng::gen_range` on `rand::thread_rng()`
/// with the range `0..bound`. That call panics on an empty range, which the
/// precondition rules out, and returns a value of the range. Which value
/// comes back is up to the generator, so the contract says no more than
/// that it lies below `bound`; that the draw is uniform is not stated.
/// `thread_rng` itself gives up only when the operating system cannot seed
/// the generator.
#[verifier::external_body]
pub(crate) fn random_below(bound: u64) -> (k: u64)
    requires
        bound > 0,
    ensures
        k < bound,
{
    rand::thread_rng().gen_range(0..bound)
}

} // verus!
