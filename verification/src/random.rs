//! The one source of chance in the crate.

use rand::Rng;
use vstd::prelude::*;

verus! {

/// Draws an index below `bound` with `rand::thread_rng().gen_range(0..bound)`.
///
/// `gen_range` panics on an empty range, so `bound` must be positive. The
/// value depends on the thread's generator: all that is claimed of it is
/// that it lies in the range that was asked for.
#[verifier::external_body]
pub(crate) fn random_below(bound: usize) -> (index: usize)
    requires
        bound > 0,
    ensures
        index < bound,
{
    rand::thread_rng().gen_range(0..bound)
}

} // verus!
