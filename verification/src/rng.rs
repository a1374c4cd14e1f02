//! The renderer's single source of randomness.

use vstd::prelude::*;
use rand::Rng;

verus! {

/// Relies on `rand::Rng::gen_range` (via `rand::thread_rng`) over the
/// inclusive range `lo..=hi`: for a non-empty range it returns a
/// uniformly distributed value inside the range.  Nothing more is
/// assumed of the draw.
#[verifier::external_body]
pub(crate) fn random_fx_in(lo: i64, hi: i64) -> (r: i64)
    requires
        lo <= hi,
    ensures
        lo <= r <= hi,
{
    rand::thread_rng().gen_range(lo..=hi)
}

} // verus!
