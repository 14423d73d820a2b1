//! The single source of randomness: a thin trusted wrapper over `rand`.
//!
//! Every verified function that needs chance takes the drawn value from
//! here and is specified for every value the wrapper can return.

use vstd::prelude::*;

verus! {

/// Relies on rand::Rng::gen_range over `lo..hi`: the sample always lies in
/// the half-open range, and the call panics only on an empty range, which
/// the precondition excludes.
#[verifier::external_body]
pub fn rand_in_range(lo: i64, hi: i64) -> (r: i64)
    requires
        lo < hi,
    ensures
        lo <= r < hi,
{
    rand::Rng::gen_range(&mut rand::thread_rng(), lo..hi)
}

} // verus!
