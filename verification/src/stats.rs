//! Statistics that need no floating point: the resampling step of the
//! bootstrap confidence interval.
use vstd::prelude::*;
use rand::rngs::StdRng;
use crate::rng::random_below;

verus! {

/// Number of bootstrap resampling iterations behind a confidence
/// interval, reported alongside it.
pub const BOOTSTRAP_ITERATIONS: usize = 2000;

/// `x` is one of the elements of `s`.
pub open spec fn occurs_in<T>(x: T, s: Seq<T>) -> bool {
    exists|j: int| 0 <= j < s.len() && s[j] == x
}

/// Draws `data.len()` elements of `data` with replacement, each index
/// uniformly at random (the resampling step of a bootstrap).
pub fn resample<T: Copy>(data: &[T], rng: &mut StdRng) -> (out: Vec<T>)
    ensures
        out@.len() == data@.len(),
        forall|i: int| 0 <= i < out@.len() ==> occurs_in(#[trigger] out@[i], data@),
{
    let n = data.len();
    let mut out: Vec<T> = Vec::new();
    let mut i: usize = 0;
    while i < n
        invariant
            n == data@.len(),
            i <= n,
            out@.len() == i,
            forall|k: int| 0 <= k < out@.len() ==> occurs_in(#[trigger] out@[k], data@),
        decreases n - i,
    {
        let j = random_below(rng, n);
        let x = data[j];
        out.push(x);
        assert(occurs_in(out@[i as int], data@));
        i = i + 1;
    }
    out
}

} // verus!
