//! Pseudo-random sampling state.
//!
//! Scattering consumes entropy.  Instead of a hidden thread-local
//! generator, every sampling routine takes an explicit, seedable stream, so
//! a render is reproducible under a fixed seed and each parallel worker can
//! own an independent stream.

use crate::fx::{Fx, SCALE};
use rand::rngs::StdRng;
use rand::RngExt;
use rand::SeedableRng;
use vstd::prelude::*;

verus! {

#[verifier::external_type_specification]
#[verifier::external_body]
pub struct ExStdRng(StdRng);

/// An explicit pseudo-random stream; each rendering worker owns one.
pub struct RngState {
    inner: StdRng,
}

impl RngState {
    /// Relies on rand's `SeedableRng::seed_from_u64`: builds a generator
    /// whose stream is determined by the seed.
    #[verifier::external_body]
    pub fn from_seed(seed: u64) -> RngState {
        RngState { inner: StdRng::seed_from_u64(seed) }
    }

    /// Relies on rand's `RngExt::random_range`, which samples uniformly
    /// from the half-open range it is given: the result lies in `[0, 1)`,
    /// and nothing more is assumed of it.
    #[verifier::external_body]
    pub fn next_unit(&mut self) -> (r: Fx)
        ensures
            0 <= r@ < SCALE as int,
    {
        Fx { raw: self.inner.random_range(0..SCALE) }
    }
}

} // verus!
