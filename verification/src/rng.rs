//! The library's single source of randomness.
//!
//! Nothing can be promised about an individual sample beyond its range,
//! so every caller is verified for all values the contract admits.

use vstd::prelude::*;

verus! {

/// Relies on rand::random_range: a sample from the thread-local
/// generator, uniform in the given half-open range; it panics only on
/// an empty range, which the precondition excludes.
#[verifier::external_body]
pub fn random_in_range(lo: i64, hi: i64) -> (r: i64)
    requires
        lo < hi,
    ensures
        lo <= r < hi,
{
    rand::random_range(lo..hi)
}

} // verus!
