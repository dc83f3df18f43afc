//! The random choices of a game, made by rand's thread-local generator.

use rand::rngs::ThreadRng;
use rand::seq::SliceRandom;
use rand::Rng;
use vstd::prelude::*;

verus! {

/// rand's thread-local generator, carried through the game without being looked into.
#[verifier::external_type_specification]
#[verifier::external_body]
pub struct ExThreadRng(ThreadRng);

/// Relies on rand::thread_rng: hands out a handle on the thread's generator.
pub assume_specification[ rand::thread_rng ]() -> ThreadRng;

/// Relies on rand::Rng::gen_range: a number drawn from `low..high`, which must not
/// be empty (it panics on an empty range).
#[verifier::external_body]
pub(crate) fn random_in_range(rng: &mut ThreadRng, low: u32, high: u32) -> (r: u32)
    requires
        low < high,
    ensures
        low <= r < high,
{
    rng.gen_range(low..high)
}

/// Relies on rand::seq::SliceRandom::shuffle: the values are put in a random
/// order, by swaps, so the same values stay.
#[verifier::external_body]
pub(crate) fn shuffle_values(values: &mut [u32], rng: &mut ThreadRng)
    ensures
        final(values)@.to_multiset() == old(values)@.to_multiset(),
{
    values.shuffle(rng)
}

} // verus!
