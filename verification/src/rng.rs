//! Trusted boundary to the `rand` crate: the seeded generator type and
//! uniform sampling from a half-open range.

use vstd::prelude::*;
use rand::Rng;

verus! {

/// `rand::rngs::StdRng` is opaque to verification. Callers build one (for
/// example from a seed) and thread it through generation; only the sampling
/// wrapper below consumes it.
#[verifier::external_type_specification]
#[verifier::external_body]
pub struct ExStdRng(rand::rngs::StdRng);

/// Relies on rand's `Rng::gen_range`, which returns a value drawn uniformly
/// from the half-open range `[low, high)` and panics on an empty range; the
/// precondition rules the empty range out. Beyond the bounds nothing is
/// promised of the value: two calls on equal arguments may differ.
#[verifier::external_body]
pub(crate) fn sample_range(rng: &mut rand::rngs::StdRng, low: usize, high: usize) -> (r: usize)
    requires
        low < high,
    ensures
        low <= r < high,
{
    rng.gen_range(low..high)
}

} // verus!
