//! The randomness source.
//!
//! All randomness is drawn from a seeded `rand::rngs::StdRng`, passed
//! explicitly to every sampling function so that a fixed seed gives a
//! reproducible run.  The two functions that actually touch the outside
//! generator form the trusted boundary: nothing is assumed of a drawn
//! value beyond its range.

use vstd::prelude::*;

use crate::math::FX_ONE;

verus! {

/// The standard generator of the `rand` crate, opaque to verification.
#[verifier::external_type_specification]
#[verifier::external_body]
pub struct ExStdRng(rand::rngs::StdRng);

/// Relies on `rand::SeedableRng::seed_from_u64`: builds a generator
/// from a seed; a fixed seed always yields the same stream within one
/// build of the library.  Nothing about the stream is assumed here.
#[verifier::external_body]
pub fn get_rand_generator(seed: u64) -> (rng: rand::rngs::StdRng) {
    <rand::rngs::StdRng as rand::SeedableRng>::seed_from_u64(seed)
}

/// Relies on `rand::RngExt::random_range`: returns a uniform sample in
/// `lo..hi`, and panics only on an empty range, which the precondition
/// rules out.  Only the range of the result is assumed.
#[verifier::external_body]
fn random_range_i64(rng: &mut rand::rngs::StdRng, lo: i64, hi: i64) -> (r: i64)
    requires
        lo < hi,
    ensures
        lo <= r < hi,
{
    <rand::rngs::StdRng as rand::RngExt>::random_range(rng, lo..hi)
}

/// A uniform fixed-point sample in `[0, 1)`.
pub fn random_num(rng: &mut rand::rngs::StdRng) -> (r: i64)
    ensures
        0 <= r < FX_ONE,
{
    random_range_i64(rng, 0, FX_ONE)
}

/// A uniform fixed-point sample in `[min, max)`.
pub fn random_num_rng(rng: &mut rand::rngs::StdRng, min: i64, max: i64) -> (r: i64)
    requires
        min < max,
    ensures
        min <= r < max,
{
    random_range_i64(rng, min, max)
}

} // verus!
