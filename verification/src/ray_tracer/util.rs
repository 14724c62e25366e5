//! The random source threaded through the scene and acceleration builders.
//!
//! The generator is an explicitly seeded handle passed in by the caller, so
//! scene construction is reproducible. Nothing is assumed about the drawn
//! values beyond their documented range.

use vstd::prelude::*;

verus! {

#[verifier::external_type_specification]
#[verifier::external_body]
pub struct ExStdRng(rand::rngs::StdRng);

/// Relies on rand::Rng::random_range over the non-empty range 0..3: the
/// result is drawn from that range, so it is always one of 0, 1, 2.
#[verifier::external_body]
pub(crate) fn random_axis(rng: &mut rand::rngs::StdRng) -> (r: usize)
    ensures
        r < 3,
{
    rand::Rng::random_range(rng, 0..3usize)
}

} // verus!
