//! Random number generation utilities.
//!
//! The PCG-64 generator is the recommended random backend for Wang-Landau
//! runs: fast, small, and seedable for exact reproducibility.  The crate
//! exposes the generator type and a seeding helper; wiring it into a
//! [`crate::traits::RandomSource`] implementation — which involves the
//! floating-point exponential of the acceptance test — is the caller's side
//! of the boundary.

use vstd::prelude::*;

use rand::SeedableRng;

verus! {

/// The PCG-64 generator of the `rand_pcg` crate (`Pcg64` is an alias for
/// this struct), declared so that it can appear in signatures; its value is
/// opaque here.
#[verifier::external_type_specification]
#[verifier::external_body]
pub struct ExLcg128Xsl64(rand_pcg::Lcg128Xsl64);

/// The recommended random number generator for Wang-Landau runs.
pub type Rng64 = rand_pcg::Pcg64;

/// Creates a seeded PCG-64 generator, for reproducible runs.
///
/// Relies on `rand_core::SeedableRng::seed_from_u64` (via `rand`), which
/// expands the 64-bit seed into a full 256-bit PCG seed; the generator is a
/// deterministic function of the seed, but nothing about its stream is
/// promised here.
#[verifier::external_body]
pub fn seeded(seed: u64) -> Rng64 {
    Rng64::seed_from_u64(seed)
}

} // verus!
