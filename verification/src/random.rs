use vstd::prelude::*;
use rand::Rng;

verus! {

/// A value drawn uniformly from `lo..hi` by `rand::Rng::gen_range` on the
/// thread-local generator.  The source of `gen_range` panics on an empty
/// range, so the range must be non-empty; every outcome lies in the range.
#[verifier::external_body]
pub(crate) fn random_range(lo: i64, hi: i64) -> (r: i64)
    requires
        lo < hi,
    ensures
        lo <= r < hi,
{
    rand::thread_rng().gen_range(lo..hi)
}

/// A coin that comes up `true` with probability `numerator / denominator`,
/// drawn by `rand::Rng::gen_ratio` on the thread-local generator.  Its
/// documentation says that it panics when the denominator is zero or the
/// numerator exceeds it, that it is always `true` when the two are equal and
/// always `false` when the numerator is zero.  Which outcome a call gives
/// otherwise is left open.
#[verifier::external_body]
pub(crate) fn random_ratio(numerator: u32, denominator: u32) -> (r: bool)
    requires
        0 < denominator,
        numerator <= denominator,
    ensures
        numerator == denominator ==> r,
        numerator == 0 ==> !r,
{
    rand::thread_rng().gen_ratio(numerator, denominator)
}

} // verus!
