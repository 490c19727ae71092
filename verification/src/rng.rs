//! The game's single source of randomness, behind one trusted wrapper.

use vstd::prelude::*;

verus! {

/// Relies on rand::Rng::gen_range over rand::thread_rng: returns a value
/// drawn uniformly from the half-open range `lo..hi`. It panics only on an
/// empty range, which the precondition rules out; nothing more than the
/// bounds can be promised of a random draw.
#[verifier::external_body]
pub(crate) fn rand_range(lo: usize, hi: usize) -> (r: usize)
    requires
        lo < hi,
    ensures
        lo <= r < hi,
{
    rand::Rng::gen_range(&mut rand::thread_rng(), lo..hi)
}

} // verus!
