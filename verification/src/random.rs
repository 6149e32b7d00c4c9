//! The random source: `rand`'s standard generator behind two draws.

use rand::rngs::StdRng;
use rand::seq::SliceRandom;
use rand::Rng;
use vstd::prelude::*;

verus! {

/// `rand::rngs::StdRng`, the seedable generator that every drawing function
/// of this crate takes. Nothing is known of its state.
#[verifier::external_type_specification]
#[verifier::external_body]
pub struct ExStdRng(StdRng);

/// Calls `rand::Rng::random_range` on the inclusive range `low..=high`.
///
/// `rand` documents that the value lies in the range and that the call
/// panics on an empty range, which the precondition rules out. Which value
/// comes back is not stated.
#[verifier::external_body]
pub(crate) fn random_in_range(rng: &mut StdRng, low: u32, high: u32) -> (value: u32)
    requires
        low <= high,
    ensures
        low <= value <= high,
{
    rng.random_range(low..=high)
}

/// Calls `rand::seq::SliceRandom::shuffle` on the slice of `items`.
///
/// The shuffle only swaps elements in place, so afterwards the vector holds
/// the same values, each as often as before. Their order is not stated.
#[verifier::external_body]
pub(crate) fn shuffle_in_place(rng: &mut StdRng, items: &mut Vec<usize>)
    ensures
        final(items)@.to_multiset() == old(items)@.to_multiset(),
{
    items.shuffle(rng);
}

} // verus!
