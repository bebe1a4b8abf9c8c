//! Random numbers, drawn from the `rand` crate.
use vstd::prelude::*;

use rand::Rng;
use rand::distributions::{IndependentSample, Range};

verus! {

/// A random number from `rand::thread_rng().gen::<u32>()`. It rests on
/// chance, so nothing is promised of which `u32` comes back.
#[verifier::external_body]
pub(crate) fn random_u32() -> (res: u32) {
    rand::thread_rng().gen::<u32>()
}

/// A random number in `[low, high)`, from `Range::new(low, high)` sampled
/// with `rand::thread_rng()`. `Range::new` panics unless `low < high`; the
/// sample lies in the half-open range, by the crate's documentation.
#[verifier::external_body]
pub(crate) fn random_in_range(low: u32, high: u32) -> (res: u32)
    requires
        low < high,
    ensures
        low <= res < high,
{
    Range::new(low, high).ind_sample(&mut rand::thread_rng())
}

} // verus!
