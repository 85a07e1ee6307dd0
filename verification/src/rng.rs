//! Trusted boundary to the `rand` crate.
//!
//! Randomness enters the engine only through `spread_chemicals_randomly`,
//! which draws one label per voxel from a caller-supplied `StdRng`.  Nothing
//! is assumed about the drawn values beyond their range, so every verified
//! property holds whatever the generator returns; a seeded generator makes
//! runs reproducible.

use vstd::prelude::*;

use rand::rngs::StdRng;

verus! {

#[verifier::external_type_specification]
#[verifier::external_body]
pub struct ExStdRng(StdRng);

/// Relies on rand's Rng::gen_range over the range 0..bound: it returns a
/// value of that range, and panics only when the range is empty.
#[verifier::external_body]
pub(crate) fn gen_below(rng: &mut StdRng, bound: u32) -> (r: u32)
    requires
        bound >= 1,
    ensures
        r < bound,
{
    rand::Rng::gen_range(rng, 0..bound)
}

} // verus!
