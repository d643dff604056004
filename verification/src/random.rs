//! The source of randomness for choosing pieces.

use crate::geometry::NUM_TETROMINOS;
use rand::Rng;
use vstd::prelude::*;

verus! {

/// Draws a number from `0` up to but excluding `bound`, each with the same
/// probability, from the generator of the current thread.
///
/// Trusted: this calls `rand::thread_rng()` and samples
/// `rand::distributions::Uniform::new(0, bound)` through `Rng::sample`.
/// `Uniform::new(low, high)` is documented to sample from the half-open
/// range `[low, high)` and to panic if `low >= high`, which `bound > 0`
/// rules out. All that is claimed of the result is that it lies in that
/// range; which number comes back is not determined. The generator panics
/// on first use if the operating system cannot seed it, whatever the
/// argument.
#[verifier::external_body]
fn sample_below(bound: u8) -> (value: u8)
    requires
        bound > 0,
    ensures
        value < bound,
{
    rand::thread_rng().sample(rand::distributions::Uniform::new(0u8, bound))
}

/// Chooses a piece type uniformly at random.
pub fn random_piece() -> (piece: u8)
    ensures
        piece < NUM_TETROMINOS,
{
    sample_below(NUM_TETROMINOS as u8)
}

} // verus!
