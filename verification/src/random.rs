//! The seeded random source that object placement draws from.

use rand::rngs::StdRng;
use rand::Rng;
use rand::SeedableRng;
use vstd::prelude::*;

verus! {

#[verifier::external_type_specification]
#[verifier::external_body]
pub struct ExStdRng(StdRng);

/// Calls `SeedableRng::seed_from_u64` of rand for `StdRng`. Nothing is claimed
/// of the generator that comes back.
#[verifier::external_body]
pub(crate) fn seeded(seed: u64) -> StdRng {
    StdRng::seed_from_u64(seed)
}

/// Calls `Rng::gen_range` of rand with the half-open range `low..high`. rand
/// panics on an empty range, which `requires` leaves out; the value drawn lies
/// in the range, and nothing more is claimed of it.
#[verifier::external_body]
pub(crate) fn draw_range(rng: &mut StdRng, low: i32, high: i32) -> (r: i32)
    requires
        low < high,
    ensures
        low <= r < high,
{
    rng.gen_range(low..high)
}

} // verus!
