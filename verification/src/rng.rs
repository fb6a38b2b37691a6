//! The seeded random generator used to pick one target per subnet.

use vstd::prelude::*;

verus! {

/// rand's standard generator, opaque to the verifier.
#[verifier::external_type_specification]
#[verifier::external_body]
pub struct ExStdRng(rand::rngs::StdRng);

/// Relies on rand::SeedableRng::seed_from_u64 for StdRng: builds a generator
/// from a 64-bit seed. Nothing is assumed about the stream it produces.
#[verifier::external_body]
pub fn seeded_std_rng(seed: u64) -> rand::rngs::StdRng {
    <rand::rngs::StdRng as rand::SeedableRng>::seed_from_u64(seed)
}

/// Relies on rand::RngExt::random_range: a drawn value lies in the given
/// range, and the call panics only on an empty range, which the precondition
/// rules out. Which value comes back is left open.
#[verifier::external_body]
pub fn rng_below(rng: &mut rand::rngs::StdRng, bound: u64) -> (r: u64)
    requires
        bound >= 1,
    ensures
        r < bound,
{
    rand::RngExt::random_range(rng, 0..bound)
}

} // verus!
