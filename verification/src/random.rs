//! The one place where the engine draws random numbers.

use rand::Rng;
use vstd::prelude::*;

verus! {

/// Draws an integer from `0..=upper` with the thread's generator, through
/// `rand::thread_rng` and `rand::Rng::gen_range`.
///
/// Not verified: the contract takes from the documentation of `gen_range`
/// that the value lies in the range it was given. The range `0..=upper` is
/// never empty, so the call does not panic on that account.
#[verifier::external_body]
pub(crate) fn random_up_to(upper: u32) -> (r: u32)
    ensures
        r <= upper,
{
    rand::thread_rng().gen_range(0..=upper)
}

} // verus!
