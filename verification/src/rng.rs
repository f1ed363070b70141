//! The seeded pseudo-random generator behind enemy spawning.
//!
//! The generator itself comes from the `oorandom` crate and is opaque to
//! verification; the engine only relies on the range of what it hands back.

use vstd::prelude::*;

verus! {

#[verifier::external_type_specification]
#[verifier::external_body]
pub struct ExRand32(oorandom::Rand32);

/// Relies on oorandom::Rand32::new: builds a generator from a seed.
#[verifier::external_body]
pub(crate) fn rng_new(seed: u64) -> oorandom::Rand32 {
    oorandom::Rand32::new(seed)
}

/// Relies on oorandom::Rand32::rand_range: for a non-empty range it returns
/// a value at least `start` and below `end`.
#[verifier::external_body]
pub(crate) fn rng_range(rng: &mut oorandom::Rand32, start: u32, end: u32) -> (r: u32)
    requires
        start < end,
    ensures
        start <= r < end,
{
    rng.rand_range(start..end)
}

} // verus!
