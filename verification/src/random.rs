//! The random source that shapes take their free parameters from.

use vstd::prelude::*;
use rand::Rng;

verus! {

/// Calls `rand::Rng::gen_range` on the thread's generator with the half-open
/// range `low..high`. Whatever is drawn lies in that range.
#[verifier::external_body]
pub(crate) fn pick(low: i32, high: i32) -> (value: i32)
    requires
        low < high,
    ensures
        low <= value < high,
{
    rand::thread_rng().gen_range(low..high)
}

/// Calls `rand::Rng::gen_ratio` on the thread's generator, which answers
/// `true` with probability `numerator / denominator`: always when the two are
/// equal, never when the numerator is zero.
#[verifier::external_body]
pub(crate) fn chance(numerator: u32, denominator: u32) -> (hit: bool)
    requires
        0 < denominator,
        numerator <= denominator,
    ensures
        numerator == denominator ==> hit,
        numerator == 0 ==> !hit,
{
    rand::thread_rng().gen_ratio(numerator, denominator)
}

} // verus!
