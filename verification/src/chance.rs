use rand::seq::IndexedRandom;
use vstd::prelude::*;

verus! {

/// Calls `rand::random_range(lo..hi)` on `usize`. Its contract claims only that the
/// number drawn lies in `lo..hi`; which number comes out is left to the thread-local
/// generator. The call panics on an empty range, so `lo < hi` is required.
#[verifier::external_body]
pub(crate) fn random_in(lo: usize, hi: usize) -> (r: usize)
    requires
        lo < hi,
    ensures
        lo <= r < hi,
{
    rand::random_range(lo..hi)
}

/// Calls `IndexedRandom::choose` on a slice with the thread-local generator `rand::rng()`.
/// Its contract claims only that the element handed back is one of the slice's elements;
/// which one is left to the generator. On an empty slice `choose` returns `None`, so a
/// non-empty slice is required.
#[verifier::external_body]
pub(crate) fn choose_weight(weights: &[u32]) -> (r: u32)
    requires
        weights@.len() > 0,
    ensures
        weights@.contains(r),
{
    *weights.choose(&mut rand::rng()).unwrap()
}

} // verus!
