//! Chance: drawing one of several weighted outcomes.
use rand::distr::weighted::WeightedIndex;
use rand::distr::Distribution;
use rand::Rng;
use vstd::prelude::*;

verus! {

/// The sum of the weights.
pub open spec fn weight_sum(weights: Seq<u64>) -> int
    decreases weights.len(),
{
    if weights.len() == 0 {
        0
    } else {
        weight_sum(weights.drop_last()) + weights.last()
    }
}

/// A draw is possible: some weight is positive and the sum is in range.
pub open spec fn drawable(weights: Seq<u64>) -> bool {
    0 < weight_sum(weights) <= u64::MAX
}

/// The index `i` came out of a draw by exactly these weights. Of a draw no more can be
/// said than that what it gives has a positive weight. What the word stands for is
/// known here alone, so that elsewhere a draw by the same weights is the only way to
/// come by it.
pub closed spec fn drawn(weights: Seq<u64>, i: int) -> bool {
    &&& 0 <= i < weights.len()
    &&& weights[i] > 0
}

/// The bits came from the random source. As with [`drawn`], what this stands for is
/// known here alone.
pub closed spec fn random_bits(bits: u32) -> bool {
    bits <= u32::MAX
}

/// What a draw gives can happen: it is one of the weights, and a positive one.
pub proof fn lemma_drawn_can_happen(weights: Seq<u64>, i: int)
    requires
        drawn(weights, i),
    ensures
        0 <= i < weights.len(),
        weights[i] > 0,
{
}

/// Draws an index by weight with `rand`'s `WeightedIndex::new` and its `sample`
/// on the thread's generator. `new` fails on no weights, on a sum of zero and on
/// a sum out of range, and on nothing else; `sample` gives an index below the
/// number of weights, and never that of a weight of zero, because it looks for
/// the first partial sum that exceeds a number below the whole sum. It is the only
/// source of what is [`drawn`] by these weights. That each index comes with a chance in
/// proportion to its weight is left unsaid.
#[verifier::external_body]
pub(crate) fn draw_weighted(weights: &[u64]) -> (r: Option<usize>)
    ensures
        r is Some <==> drawable(weights@),
        r matches Some(i) ==> i < weights@.len() && weights@[i as int] > 0,
        r matches Some(i) ==> drawn(weights@, i as int),
{
    match WeightedIndex::<u64>::new(weights) {
        Ok(dist) => Some(dist.sample(&mut rand::rng())),
        Err(_) => None,
    }
}

/// A random 32-bit number from `rand`'s `Rng::random` on the thread's generator.
/// Every number can come back, so no more is said of the result than that it is one of
/// the [`random_bits`].
#[verifier::external_body]
pub(crate) fn draw_bits() -> (r: u32)
    ensures
        random_bits(r),
{
    rand::rng().random::<u32>()
}

} // verus!
