//! The pseudorandom source injected into every stochastic operation.

use vstd::prelude::*;
use rand::Rng;
use rand::SeedableRng;

verus! {

#[verifier::external_type_specification]
#[verifier::external_body]
pub struct ExStdRng(rand::rngs::StdRng);

/// A seeded pseudorandom generator. Every operation that draws
/// randomness takes one of these, so callers (and tests) control the
/// stream by choosing the seed.
pub struct Prng {
    rng: rand::rngs::StdRng,
}

impl Prng {
    /// Relies on rand's `StdRng::seed_from_u64`: builds a generator
    /// whose stream is a function of the seed alone.
    #[verifier::external_body]
    pub fn from_seed(seed: u64) -> (p: Prng) {
        Prng { rng: rand::rngs::StdRng::seed_from_u64(seed) }
    }

    /// Relies on rand's `Rng::gen_range` over `0..n`: returns a draw
    /// below `n`, and panics only on an empty range, which the
    /// precondition rules out.
    #[verifier::external_body]
    pub fn below(&mut self, n: u64) -> (r: u64)
        requires
            n >= 1,
        ensures
            r < n,
    {
        self.rng.gen_range(0..n)
    }
}

} // verus!
