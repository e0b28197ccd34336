use vstd::prelude::*;
use oorandom::Rand32;

verus! {

#[verifier::external_type_specification]
#[verifier::external_body]
pub struct ExRand32(Rand32);

/// Relies on `oorandom::Rand32::rand_range`: for `start < end` it returns a
/// value in `[start, end)` and advances the generator.
#[verifier::external_body]
pub(crate) fn rand_range(rng: &mut Rand32, start: u32, end: u32) -> (r: u32)
    requires
        start < end,
    ensures
        start <= r < end,
{
    rng.rand_range(start..end)
}

} // verus!
