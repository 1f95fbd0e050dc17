//! Uniform draws from the rand crate.
use vstd::prelude::*;
use rand::Rng;

verus! {

#[verifier::external_type_specification]
#[verifier::external_body]
pub struct ExStdRng(rand::rngs::StdRng);

/// Relies on rand's `Rng::random_range` (rand 0.9) on an `i64` range: it returns a value of
/// `[low, high)` and panics only on an empty range.
#[verifier::external_body]
pub(crate) fn random_in(rng: &mut rand::rngs::StdRng, low: i64, high: i64) -> (r: i64)
    requires
        low < high,
    ensures
        low <= r < high,
{
    rng.random_range(low..high)
}

} // verus!
