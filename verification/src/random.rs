//! An explicitly seeded source of uniform randomness for the
//! initial-condition generators.
//!
//! The generators take the source as an argument, so particle generation is
//! a function of the parameters and the seed. Nothing is assumed about the
//! values drawn beyond their range; every caller is verified for every
//! possible outcome.

use vstd::prelude::*;
use rand::Rng;
use rand::SeedableRng;

verus! {

/// Declares the standard random number generator of the rand crate so that
/// a field may hold one; the value is opaque to the verifier.
#[verifier::external_type_specification]
#[verifier::external_body]
pub struct ExStdRng(rand::rngs::StdRng);

/// A deterministic stream of uniform random numbers.
pub struct RandomSource {
    rng: rand::rngs::StdRng,
}

impl RandomSource {
    /// Relies on rand's `StdRng::seed_from_u64` to build a generator from a
    /// seed. Nothing is promised of the values it will produce.
    #[verifier::external_body]
    pub fn from_seed(seed: u64) -> RandomSource {
        RandomSource { rng: rand::rngs::StdRng::seed_from_u64(seed) }
    }

    /// Relies on rand's `Rng::gen_range` over `0..bound`: the sample lies in
    /// the half-open range, which is non-empty because `bound` is positive.
    #[verifier::external_body]
    pub fn next_below(&mut self, bound: u64) -> (r: u64)
        requires
            bound >= 1,
        ensures
            r < bound,
    {
        self.rng.gen_range(0..bound)
    }

    /// A uniform draw from the closed interval `[-radius, radius]`.
    pub fn next_offset(&mut self, radius: i64) -> (r: i64)
        requires
            1 <= radius <= crate::math::COORD_LIMIT,
        ensures
            -radius <= r <= radius,
    {
        let span: u64 = 2 * (radius as u64) + 1;
        let raw = self.next_below(span);
        (raw as i64) - radius
    }
}

} // verus!
