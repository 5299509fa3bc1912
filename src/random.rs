//! The random source handed explicitly to every operation that draws.
use rand::Rng;
use rand::SeedableRng;
use vstd::prelude::*;

verus! {

/// The seedable generator used throughout the library (`rand::rngs::StdRng`).
#[verifier::external_type_specification]
#[verifier::external_body]
pub struct ExStdRng(rand::rngs::StdRng);

/// Relies on `rand::Rng::gen_range` over `0..n`: a value of the half-open
/// range, drawn uniformly; it panics only on an empty range.
#[verifier::external_body]
pub(crate) fn random_below(rng: &mut rand::rngs::StdRng, n: usize) -> (r: usize)
    requires
        n > 0,
    ensures
        r < n,
{
    rng.gen_range(0..n)
}

/// Relies on `rand::SeedableRng::seed_from_u64`: a generator whose stream is
/// fixed by the seed.
#[verifier::external_body]
pub(crate) fn seeded_rng(seed: u64) -> (r: rand::rngs::StdRng) {
    rand::rngs::StdRng::seed_from_u64(seed)
}

/// Relies on `rand::SeedableRng::from_entropy`: a generator seeded from the
/// operating system (it panics only if the system has no randomness to give).
#[verifier::external_body]
pub(crate) fn entropy_rng() -> (r: rand::rngs::StdRng) {
    rand::rngs::StdRng::from_entropy()
}

} // verus!
