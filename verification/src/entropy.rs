//! The machine's source of random numbers.

use rand::Rng;
use vstd::prelude::*;

verus! {

/// A number drawn by `rand::Rng::gen_range` from the thread's generator,
/// `rand::thread_rng()`.
///
/// Not verified: the contract is taken from the method's documentation. It
/// claims that the number lies in the half-open range from `low` to `high`,
/// and nothing of which number comes: two calls may differ. It leaves out
/// the ranges on which the method panics, those with `low >= high`. The
/// generator itself panics where the system gives it no seed.
#[verifier::external_body]
pub(crate) fn random_in_range(low: u16, high: u16) -> (r: u16)
    requires
        low < high,
    ensures
        low <= r < high,
{
    let mut rng = rand::thread_rng();
    rng.gen_range(low, high)
}

} // verus!
