//! The one source of chance.

use vstd::prelude::*;
use rand::Rng;

verus! {

/// Draws an index below `bound` from the calling thread's generator.
///
/// This is `rand::Rng::gen_range` with the bounds `0` and `bound`, on the
/// generator that `rand::thread_rng` hands out. `gen_range` returns a value
/// from its lower bound up to, and not including, its upper bound, and panics
/// unless the lower bound is below the upper one; hence the demand that
/// `bound` is positive. Nothing is claimed about which index comes, only that
/// it is below `bound`: two draws with one bound may differ.
#[verifier::external_body]
pub(crate) fn random_below(bound: usize) -> (r: usize)
    requires
        bound > 0,
    ensures
        r < bound,
{
    rand::thread_rng().gen_range(0, bound)
}

} // verus!
