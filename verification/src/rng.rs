//! The one source of randomness the systems draw from. The sample is bounded
//! but otherwise unconstrained: every caller is verified for every value the
//! range admits.

use vstd::prelude::*;

verus! {

/// Relies on `rand::random_range` over `i64`: the sample of a half-open range
/// lies within it. The call panics on an empty range, which the precondition
/// rules out.
#[verifier::external_body]
pub(crate) fn random_in_range(lo: i64, hi: i64) -> (r: i64)
    requires
        lo < hi,
    ensures
        lo <= r < hi,
{
    rand::random_range(lo..hi)
}

} // verus!
