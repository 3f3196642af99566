//! Random draws, taken from the `rand` crate.

use rand::Rng;
use vstd::prelude::*;

verus! {

/// The handle to the random number generator of the current thread, as
/// `rand` defines it. Nothing is known of what it holds.
#[verifier::external_type_specification]
#[verifier::external_body]
pub struct ExThreadRng(rand::rngs::ThreadRng);

/// `rand::thread_rng`: hands out the generator of the current thread. Nothing
/// is claimed of the handle. The generator is seeded from the operating
/// system when a thread first asks for it, and `rand` gives up with a panic
/// if the system has no entropy to offer.
pub assume_specification[ rand::thread_rng ]() -> (rng: rand::rngs::ThreadRng)
;

/// `Rng::gen_range` on the inclusive range `low..=high` of `i32`: the number
/// drawn lies in the range. Which one it is differs from call to call. `rand`
/// panics on an empty range, so `low <= high` is asked for.
#[verifier::external_body]
pub(crate) fn gen_range_inclusive(rng: &mut rand::rngs::ThreadRng, low: i32, high: i32) -> (n: i32)
    requires
        low <= high,
    ensures
        low <= n <= high,
{
    rng.gen_range(low..=high)
}

} // verus!
