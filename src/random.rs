//! Random draws from the thread-local generator of `rand`.

use vstd::prelude::*;

verus! {

/// Relies on `rand::random_range`: on a non-empty range `lo..hi` it returns a
/// value of that range; it panics on an empty one, which `requires` rules out.
#[verifier::external_body]
pub(crate) fn random_between(lo: i64, hi: i64) -> (r: i64)
    requires
        lo < hi,
    ensures
        lo <= r < hi,
{
    rand::random_range(lo..hi)
}

/// Relies on `rand::random`: any `u32` may come back.
#[verifier::external_body]
pub(crate) fn random_u32() -> u32 {
    rand::random::<u32>()
}

} // verus!
