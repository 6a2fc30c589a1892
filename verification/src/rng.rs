//! Trusted wrappers around the `rand` crate's thread-local generator.

use rand::seq::SliceRandom;
use rand::Rng;
use vstd::prelude::*;

use crate::cards::Card;

verus! {

/// Relies on rand's `SliceRandom::shuffle`: a Fisher-Yates pass of in-place
/// swaps, so the result is a permutation of the input. Which permutation
/// comes back depends on the generator; nothing more is assumed.
#[verifier::external_body]
pub(crate) fn shuffled(cards: &Vec<Card>) -> (r: Vec<Card>)
    ensures
        r@.to_multiset() == cards@.to_multiset(),
        r@.len() == cards@.len(),
{
    let mut copy = cards.clone();
    copy.shuffle(&mut rand::thread_rng());
    copy
}

/// Relies on rand's `Rng::gen_range`: returns a value of the given range,
/// and panics only on an empty range, which the precondition rules out.
/// Which value comes back depends on the generator; nothing more is assumed.
#[verifier::external_body]
pub(crate) fn roll_below(n: u32) -> (r: u32)
    requires
        n > 0,
    ensures
        r < n,
{
    rand::thread_rng().gen_range(0..n)
}

} // verus!
