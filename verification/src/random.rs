//! Uniform random index selection, through the `rand` crate.
//!
//! Nothing is assumed about which value comes back beyond its range: every
//! caller is verified for every admissible outcome.

use vstd::prelude::*;

verus! {

/// Relies on rand::rngs::ThreadRng being an ordinary exec type; it is
/// opaque here and only carried between the two calls below.
#[verifier::external_type_specification]
#[verifier::external_body]
pub struct ExThreadRng(rand::rngs::ThreadRng);

/// Relies on rand::thread_rng: hands out the thread-local generator, seeded
/// from process entropy. Nothing is stated of it.
#[verifier::external_body]
pub(crate) fn fresh_rng() -> rand::rngs::ThreadRng {
    rand::thread_rng()
}

/// Relies on rand::Rng::gen_range: on the range `0..n` it returns a value
/// drawn uniformly from `[0, n)`, and panics only on an empty range, which
/// the precondition rules out.
#[verifier::external_body]
pub(crate) fn gen_below(rng: &mut rand::rngs::ThreadRng, n: usize) -> (r: usize)
    requires
        n > 0,
    ensures
        r < n,
{
    rand::Rng::gen_range(rng, 0..n)
}

} // verus!
