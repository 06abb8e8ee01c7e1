//! The two draws that the world takes from the thread-local random generator.

use vstd::prelude::*;

verus! {

/// Calls `rand::Rng::gen_range` on `rand::thread_rng()` with the half-open
/// range from zero to `bound`. The generator picks any number of that range;
/// it panics on an empty range, which `requires` leaves out.
#[verifier::external_body]
pub(crate) fn random_below(bound: usize) -> (r: usize)
    requires
        bound > 0,
    ensures
        r < bound,
{
    rand::Rng::gen_range(&mut rand::thread_rng(), 0..bound)
}

/// Calls `rand::Rng::gen_ratio` on `rand::thread_rng()`: `true` with a chance
/// of `numerator` in `denominator`. It is always `true` where the two are
/// equal and always `false` where `numerator` is zero; it panics where
/// `denominator` is zero or smaller than `numerator`, which `requires` leaves
/// out.
#[verifier::external_body]
pub(crate) fn random_ratio(numerator: u32, denominator: u32) -> (r: bool)
    requires
        denominator > 0,
        numerator <= denominator,
    ensures
        numerator == denominator ==> r,
        numerator == 0 ==> !r,
{
    rand::Rng::gen_ratio(&mut rand::thread_rng(), numerator, denominator)
}

} // verus!
