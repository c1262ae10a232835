//! The draws this crate takes from the `rand` generator.
//!
//! Nothing here is proved: each contract records what `rand` documents of the
//! call in the body, and the rest of the crate is verified against it.

use rand::distributions::{Distribution, Uniform};
use rand::rngs::ThreadRng;
use rand::Rng;
use vstd::prelude::*;

verus! {

/// `rand::rngs::ThreadRng`, the handle to the generator of the calling thread.
/// Its state is opaque here: no contract speaks of what it will draw next.
#[verifier::external_type_specification]
#[verifier::external_body]
pub struct ExThreadRng(ThreadRng);

/// `Rng::gen_range` over the inclusive range `low..=high` of `u32`.
///
/// `gen_range` panics on an empty range, which `low <= high` rules out, and
/// returns a member of the range. Which member is left open.
#[verifier::external_body]
pub(crate) fn uniform_u32(rng: &mut ThreadRng, low: u32, high: u32) -> (drawn: u32)
    requires
        low <= high,
    ensures
        low <= drawn <= high,
{
    rng.gen_range(low..=high)
}

/// `Distribution::sample` on `Uniform::from(first..=last)` over `char`.
///
/// Building the distribution panics when `first > last`; a sample is a
/// character of the inclusive range. Which one is left open.
#[verifier::external_body]
pub(crate) fn uniform_char(rng: &mut ThreadRng, first: char, last: char) -> (drawn: char)
    requires
        first <= last,
    ensures
        first <= drawn <= last,
{
    Uniform::from(first..=last).sample(rng)
}

/// `Rng::gen_ratio(numerator, denominator)`: true with probability
/// `numerator / denominator`.
///
/// `gen_ratio` panics when the denominator is zero or smaller than the
/// numerator. It documents two certain outcomes: false for a zero numerator,
/// true when numerator and denominator are equal. Otherwise the result is left
/// open.
#[verifier::external_body]
pub(crate) fn ratio_hit(rng: &mut ThreadRng, numerator: u32, denominator: u32) -> (hit: bool)
    requires
        numerator <= denominator,
        denominator > 0,
    ensures
        numerator == 0 ==> !hit,
        numerator == denominator ==> hit,
{
    rng.gen_ratio(numerator, denominator)
}

} // verus!
