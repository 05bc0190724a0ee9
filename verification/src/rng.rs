//! The entropy source: a seeded, deterministic ChaCha-8 generator
//! from the `bevy_prng` crate, reached through a trusted wrapper.
//!
//! Nothing is assumed about the drawn values, so everything proved
//! about the spawner holds for every draw sequence; determinism
//! under a fixed seed is the generator's own documented behaviour
//! and is exercised by the tests, not relied on in any proof.

use vstd::prelude::*;

verus! {

/// Declares `bevy_prng::ChaCha8Rng` so that verified code can carry
/// a generator; its state is opaque here.
#[verifier::external_type_specification]
#[verifier::external_body]
pub struct ExChaCha8Rng(bevy_prng::ChaCha8Rng);

/// Relies on `rand_core::RngCore::next_u32`, as implemented by
/// `bevy_prng::ChaCha8Rng`: yields the next 32 bits of the stream
/// and advances the state. Nothing is assumed of the value, so every
/// caller must be correct for all outcomes.
#[verifier::external_body]
pub(crate) fn rng_next_u32(rng: &mut bevy_prng::ChaCha8Rng) -> u32 {
    rand_core::RngCore::next_u32(rng)
}

} // verus!
