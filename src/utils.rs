//! Shuffling, the one source of chance in the engine.
use vstd::prelude::*;

use rand::seq::SliceRandom;

verus! {

/// Puts the items of `v` in a random order.
///
/// Relies on rand's `SliceRandom::shuffle` with the thread-local generator: it
/// only swaps items, so the result holds the same items, each as often.
#[verifier::external_body]
pub fn shuffle<T>(v: &mut Vec<T>)
    ensures
        final(v)@.to_multiset() == old(v)@.to_multiset(),
{
    v.shuffle(&mut rand::thread_rng());
}

} // verus!
