//! Random sampling, behind a trusted boundary.

use vstd::prelude::*;

verus! {

/// Relies on `rand::Rng::gen_range` on the thread-local generator:
/// a sample drawn from `0..n` is strictly below `n` (the call panics only
/// on an empty range, which `n > 0` rules out).
#[verifier::external_body]
pub(crate) fn sample_below(n: u16) -> (r: u16)
    requires
        n > 0,
    ensures
        r < n,
{
    rand::Rng::gen_range(&mut rand::thread_rng(), 0..n)
}

} // verus!
