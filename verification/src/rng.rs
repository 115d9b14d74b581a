//! The library's single source of randomness, behind a trusted wrapper.

use rand::RngExt;
use vstd::prelude::*;

verus! {

/// Relies on `rand::RngExt::random_range` over `lo..hi`: it returns a value
/// uniformly sampled from the half-open range, and panics only when the
/// range is empty (excluded by `requires`). Nothing beyond the bounds is
/// assumed of the outcome.
#[verifier::external_body]
pub(crate) fn rand_range_i32(lo: i32, hi: i32) -> (r: i32)
    requires
        lo < hi,
    ensures
        lo <= r < hi,
{
    rand::rng().random_range(lo..hi)
}

} // verus!
