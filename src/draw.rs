//! Sources of randomness. Nothing is known of a draw but its range.
use rand::Rng;
use vstd::prelude::*;

verus! {

/// Relies on `rand::Rng::gen_range` on the thread-local generator: a value
/// uniformly drawn from `0..n`. It panics on an empty range, so `n > 0`.
#[verifier::external_body]
pub(crate) fn random_below(n: u64) -> (r: u64)
    requires
        n > 0,
    ensures
        r < n,
{
    rand::thread_rng().gen_range(0..n)
}

/// Relies on `rand::random::<u32>`: any `u32`, uniformly drawn.
#[verifier::external_body]
pub(crate) fn random_u32() -> (r: u32) {
    rand::random::<u32>()
}

} // verus!
