//! The two points where the orchestrator draws randomness. Each wraps one
//! function of the `rand` crate; nothing more than what holds of every
//! possible outcome is stated, since the results are random.

use vstd::prelude::*;
use rand::Rng;

verus! {

/// Relies on rand::Rng::gen_range over the inclusive range `0..=bound`:
/// it returns a uniformly drawn value of that range (rand panics only on
/// an empty range, and `0..=bound` never is). Only the bound is promised
/// here; which value comes back is random.
#[verifier::external_body]
pub(crate) fn draw_up_to(bound: usize) -> (r: usize)
    ensures
        r <= bound,
{
    rand::thread_rng().gen_range(0..=bound)
}

/// Relies on rand::Rng::fill on a byte slice: it fills the whole slice
/// with random data. Only the length is promised; the bytes are random.
#[verifier::external_body]
pub(crate) fn random_bytes(len: usize) -> (r: Vec<u8>)
    ensures
        r@.len() == len as nat,
{
    let mut v = vec![0u8; len];
    rand::thread_rng().fill(&mut v[..]);
    v
}

} // verus!
