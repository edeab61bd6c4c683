//! The library's single source of randomness: a seedable generator from the
//! rand crate, reached through one trusted wrapper.
//!
//! Rendering is deterministic for a fixed seed because the caller owns the
//! generator and passes it in explicitly.

use vstd::prelude::*;
use rand::Rng;

verus! {

/// rand's standard seedable generator, declared so its values can flow
/// through signatures; opaque to the verifier.
#[verifier::external_type_specification]
#[verifier::external_body]
pub struct ExStdRng(rand::rngs::StdRng);

/// Relies on rand's `Rng::gen_range`: a sample uniform in `low..high`,
/// which panics only when the range is empty.
#[verifier::external_body]
pub(crate) fn rand_range(rng: &mut rand::rngs::StdRng, low: i64, high: i64) -> (r: i64)
    requires
        low < high,
    ensures
        low <= r < high,
{
    rng.gen_range(low..high)
}

} // verus!
