use rand::seq::IteratorRandom;
use vstd::prelude::*;

verus! {

/// Draws a uniformly random index below `len` from the thread-local generator.
///
/// Calls `rand::seq::IteratorRandom::choose` on the range `0..len` with `rand::rng()`.
/// A range reports its exact length, and for such an iterator `choose` returns `None`
/// exactly when it is empty and otherwise one of its elements. Which index comes back
/// rests on chance and is left unsaid; `rand::rng()` panics only when the operating
/// system's random source fails at first use.
#[verifier::external_body]
pub(crate) fn random_index(len: usize) -> (r: Option<usize>)
    ensures
        r is None <==> len == 0,
        r matches Some(i) ==> i < len,
{
    (0..len).choose(&mut rand::rng())
}

/// A random value in `lo..hi`, or `None` when that range is empty.
pub fn random_in_range(lo: u16, hi: u16) -> (r: Option<u16>)
    ensures
        r is None <==> lo >= hi,
        r matches Some(v) ==> lo <= v < hi,
{
    if lo >= hi {
        return None;
    }
    match random_index((hi - lo) as usize) {
        Some(i) => Some(lo + i as u16),
        None => None,
    }
}

/// A random value below `n`, or `0` when `n` is `0`.
pub fn random_below_or_zero(n: u16) -> (r: u16)
    ensures
        n > 0 ==> r < n,
        n == 0 ==> r == 0,
{
    match random_in_range(0, n) {
        Some(v) => v,
        None => 0,
    }
}

} // verus!
