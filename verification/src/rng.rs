//! The random number generator that drives request order and generated
//! values. Draws come from `rand`; only what holds of every draw is stated.
use vstd::prelude::*;
use rand::rngs::StdRng;
use rand::seq::SliceRandom;
use rand::Rng;

verus! {

#[verifier::external_type_specification]
#[verifier::external_body]
pub struct ExStdRng(rand::rngs::StdRng);

/// A uniformly drawn index below `bound`, through `Rng::gen_range(0..bound)`
/// (which panics on an empty range, hence the `requires`). The value
/// depends on the generator's state, so only its range is stated.
#[verifier::external_body]
pub(crate) fn random_below(rng: &mut StdRng, bound: usize) -> (r: usize)
    requires
        bound > 0,
    ensures
        r < bound,
{
    rng.gen_range(0..bound)
}

/// Shuffles `items` in place through `SliceRandom::shuffle`, which swaps
/// elements (Fisher-Yates): the result is a permutation of the input.
/// Which permutation depends on the generator's state and is not stated.
#[verifier::external_body]
pub(crate) fn shuffle_flags(items: &mut Vec<bool>, rng: &mut StdRng)
    ensures
        final(items)@.len() == old(items)@.len(),
        final(items)@.to_multiset() == old(items)@.to_multiset(),
{
    items.shuffle(rng);
}

} // verus!
