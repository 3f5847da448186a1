//! The one source of chance: uniform draws from the thread-local generator.

use rand::Rng;
use vstd::prelude::*;

verus! {

/// Draws an index below `bound` with `rand::Rng::gen_range` on
/// `rand::thread_rng()`.
///
/// The generator promises a value inside the half-open range it is given and
/// panics on an empty one, so `bound` must be positive. Nothing is claimed
/// about which value comes out: two calls on the same bound may differ.
#[verifier::external_body]
pub(crate) fn random_below(bound: usize) -> (r: usize)
    requires
        bound > 0,
    ensures
        r < bound,
{
    rand::thread_rng().gen_range(0..bound)
}

} // verus!
