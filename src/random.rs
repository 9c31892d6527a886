use rand::Rng;
use vstd::prelude::*;

verus! {

/// Relies on rand's `Rng::gen_range` over an inclusive range on
/// `thread_rng()`: the value lies in `lo..=hi`; the call panics on an empty
/// range, which `requires` leaves out.
#[verifier::external_body]
pub(crate) fn draw_in_range(lo: i64, hi: i64) -> (r: i64)
    requires
        lo <= hi,
    ensures
        lo <= r <= hi,
{
    rand::thread_rng().gen_range(lo..=hi)
}

/// Relies on rand's `Rng::gen_ratio` on `thread_rng()`: true with chance
/// `numerator / denominator`, always false for a zero numerator and always
/// true when numerator equals denominator; the call panics for a zero
/// denominator or a numerator above it, which `requires` leaves out.
#[verifier::external_body]
pub(crate) fn draw_ratio(numerator: u32, denominator: u32) -> (r: bool)
    requires
        0 < denominator,
        numerator <= denominator,
    ensures
        numerator == 0 ==> !r,
        numerator == denominator ==> r,
{
    rand::thread_rng().gen_ratio(numerator, denominator)
}

} // verus!
