//! Randomness, from the thread-local generator of `rand`.

use vstd::prelude::*;
use rand::distributions::Alphanumeric;
use rand::rngs::ThreadRng;
use rand::Rng;
use crate::text::is_ascii_alphanumeric;

verus! {

/// `rand::rngs::ThreadRng`, carried through opaquely.
#[verifier::external_type_specification]
#[verifier::external_body]
pub struct ExThreadRng(ThreadRng);

/// `rand::thread_rng`: a handle to the thread-local random number generator.
#[verifier::external_body]
pub(crate) fn thread_rng() -> ThreadRng {
    rand::thread_rng()
}

/// `Rng::sample` with the `Alphanumeric` distribution: one byte drawn from the
/// ASCII letters and digits.
#[verifier::external_body]
pub(crate) fn sample_alphanumeric(rng: &mut ThreadRng) -> (b: u8)
    ensures
        is_ascii_alphanumeric(b as char),
{
    rng.sample(Alphanumeric)
}

/// `Rng::gen_range` on the inclusive range `low..=high`: a number in that range.
#[verifier::external_body]
pub(crate) fn gen_range_inclusive(rng: &mut ThreadRng, low: u64, high: u64) -> (r: u64)
    requires
        low <= high,
    ensures
        low <= r <= high,
{
    rng.gen_range(low..=high)
}

} // verus!
