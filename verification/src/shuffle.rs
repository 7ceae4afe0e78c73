//! Where chance enters the engine: one generator of random numbers, from which the
//! order of the examples and the first weights are drawn.

use vstd::prelude::*;
use rand::rngs::StdRng;
use rand::seq::SliceRandom;
use rand::RngCore;
use rand::SeedableRng;

verus! {

/// rand's standard generator of random numbers. Nothing is known of what is inside.
#[verifier::external_type_specification]
#[verifier::external_body]
pub struct ExStdRng(rand::rngs::StdRng);

/// A generator that starts from `seed`, made by `seed_from_u64` of rand's
/// `SeedableRng`. Nothing is claimed of it.
#[verifier::external_body]
pub(crate) fn seeded_generator(seed: u64) -> (generator: StdRng) {
    StdRng::seed_from_u64(seed)
}

/// A generator that starts from what the operating system gives, made by
/// `from_entropy` of rand's `SeedableRng`. Nothing is claimed of it; rand lets it
/// fail only where the operating system has no randomness to give.
#[verifier::external_body]
pub(crate) fn fresh_generator() -> (generator: StdRng) {
    StdRng::from_entropy()
}

/// The next number of `generator`, by `next_u64` of rand's `RngCore`. Nothing is
/// claimed of the number, nor of the generator afterwards.
#[verifier::external_body]
pub(crate) fn draw(generator: &mut StdRng) -> (number: u64) {
    generator.next_u64()
}

/// Puts `items` in a random order, with `shuffle` of rand's `SliceRandom`.
///
/// Believed of rand: `shuffle` only swaps elements of the slice, so what it leaves
/// holds each item as often as before. Nothing is said of the order, nor of the
/// generator afterwards.
#[verifier::external_body]
pub(crate) fn shuffle<E>(items: &mut Vec<E>, generator: &mut StdRng)
    ensures
        final(items)@.to_multiset() == old(items)@.to_multiset(),
{
    items.shuffle(generator);
}

/// Two sequences that hold the same items have the same length, and each item of
/// the one is found in the other.
pub proof fn lemma_same_items<E>(before: Seq<E>, after: Seq<E>, i: int) -> (j: int)
    requires
        after.to_multiset() == before.to_multiset(),
        0 <= i < after.len(),
    ensures
        after.len() == before.len(),
        0 <= j < before.len(),
        before[j] == after[i],
{
    vstd::seq_lib::to_multiset_len(before);
    vstd::seq_lib::to_multiset_len(after);
    vstd::seq_lib::to_multiset_contains(after, after[i]);
    vstd::seq_lib::to_multiset_contains(before, after[i]);
    assert(after.contains(after[i]));
    choose|j: int| 0 <= j < before.len() && before[j] == after[i]
}

} // verus!
