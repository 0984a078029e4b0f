//! The randomness capability.
//!
//! Scattering and medium sampling consume randomness through an explicit,
//! seedable source rather than a global generator, so renders can be made
//! deterministic for testing. Every draw is an integer; contracts state only
//! the range of the draw, never its value.

use rand::RngExt;
use rand::SeedableRng;
use vstd::prelude::*;

verus! {

use crate::num::SCALE;

/// The pseudo-random generator of the rand crate that backs `RandomSource`.
#[verifier::external_type_specification]
#[verifier::external_body]
pub struct ExStdRng(rand::rngs::StdRng);

/// An explicit source of pseudo-randomness, threaded by value through every
/// call that samples (material scattering, free-flight sampling).
pub struct RandomSource {
    rng: rand::rngs::StdRng,
}

impl RandomSource {
    /// Relies on rand's `StdRng::seed_from_u64`: builds a generator whose
    /// stream is a function of the seed alone.
    #[verifier::external_body]
    pub fn new_seeded(seed: u64) -> (r: RandomSource) {
        RandomSource { rng: rand::rngs::StdRng::seed_from_u64(seed) }
    }

    /// Relies on rand's `random_range`: a draw from `0..bound` lies below the
    /// bound; the range is nonempty, so the call cannot panic.
    #[verifier::external_body]
    fn sample_below(&mut self, bound: u64) -> (r: u64)
        requires
            bound > 0,
        ensures
            r < bound,
    {
        self.rng.random_range(0..bound)
    }

    /// A uniform index below the given positive bound.
    pub(crate) fn sample_index(&mut self, bound: u64) -> (r: u64)
        requires
            bound > 0,
        ensures
            r < bound,
    {
        self.sample_below(bound)
    }

    /// A uniform scalar from the unit interval `[0, 1]` in fixed-point form.
    pub fn next_unit(&mut self) -> (r: i64)
        ensures
            0 <= r <= SCALE,
    {
        self.sample_below((SCALE + 1) as u64) as i64
    }

    /// A uniform scalar from `[-1, 1]` in fixed-point form.
    pub fn next_symmetric(&mut self) -> (r: i64)
        ensures
            -SCALE <= r <= SCALE,
    {
        let d = self.sample_below((2 * SCALE + 1) as u64) as i64;
        d - SCALE
    }
}

} // verus!
