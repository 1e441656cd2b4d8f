//! A vote-weight arithmetic wrapper.
//!
//! [`Weight`] wraps a plain unsigned 64-bit quantity used by a consensus
//! protocol; its operations are exact integer arithmetic, proved free of
//! overflow, wrap-around, and division by zero.

use vstd::prelude::*;

verus! {

/// A vote weight.
#[derive(Copy, Clone, Debug, Default, PartialEq, Eq, Structural, PartialOrd, Ord)]
pub struct Weight(pub u64);

/// The sum of the weights in `weights`, as an unbounded integer.
pub open spec fn spec_weight_sum(weights: Seq<Weight>) -> int
    decreases weights.len(),
{
    if weights.len() == 0 {
        0
    } else {
        spec_weight_sum(weights.drop_last()) + weights.last().0
    }
}

impl Weight {
    /// Adds up a sequence of weights.
    pub fn sum(weights: &Vec<Weight>) -> (result: Weight)
        requires
            spec_weight_sum(weights@) <= u64::MAX,
        ensures
            result.0 == spec_weight_sum(weights@),
    {
        let mut total: u64 = 0;
        let mut i: usize = 0;
        while i < weights.len()
            invariant
                i <= weights@.len(),
                total == spec_weight_sum(weights@.subrange(0, i as int)),
                spec_weight_sum(weights@) <= u64::MAX,
            decreases weights@.len() - i,
        {
            proof {
                lemma_weight_sum_prefix_bound(weights@, i + 1);
                assert(weights@.subrange(0, i + 1).drop_last() =~= weights@.subrange(0, i as int));
                assert(weights@.subrange(0, i + 1).last() == weights@[i as int]);
            }
            total = total + weights[i].0;
            i = i + 1;
        }
        proof {
            assert(weights@.subrange(0, weights@.len() as int) =~= weights@);
        }
        Weight(total)
    }

    /// Scales the weight by a factor.
    pub fn mul(self, rhs: u64) -> (result: Weight)
        requires
            self.0 * rhs <= u64::MAX,
        ensures
            result.0 == self.0 * rhs,
    {
        Weight(self.0 * rhs)
    }

    /// Divides the weight by a divisor, rounding towards zero.
    pub fn div(self, rhs: u64) -> (result: Weight)
        requires
            rhs != 0,
        ensures
            result.0 == self.0 / rhs,
    {
        Weight(self.0 / rhs)
    }
}

/// Every non-negative partial sum of a sequence of weights is bounded by the
/// full sum, since weights are unsigned.
proof fn lemma_weight_sum_prefix_bound(weights: Seq<Weight>, n: int)
    requires
        0 <= n <= weights.len(),
    ensures
        spec_weight_sum(weights.subrange(0, n)) <= spec_weight_sum(weights),
        spec_weight_sum(weights.subrange(0, n)) >= 0,
    decreases weights.len() - n,
{
    if n == weights.len() {
        assert(weights.subrange(0, n) =~= weights);
        lemma_weight_sum_nonneg(weights);
    } else {
        lemma_weight_sum_prefix_bound(weights, n + 1);
        lemma_weight_sum_nonneg(weights.subrange(0, n));
        assert(weights.subrange(0, n + 1).drop_last() =~= weights.subrange(0, n));
        assert(weights.subrange(0, n + 1).last() == weights[n]);
    }
}

/// The sum of a sequence of unsigned weights is non-negative.
proof fn lemma_weight_sum_nonneg(weights: Seq<Weight>)
    ensures
        spec_weight_sum(weights) >= 0,
    decreases weights.len(),
{
    if weights.len() > 0 {
        lemma_weight_sum_nonneg(weights.drop_last());
    }
}

impl From<u64> for Weight {
    fn from(value: u64) -> (result: Weight) {
        Weight(value)
    }
}

impl vstd::std_specs::convert::FromSpecImpl<u64> for Weight {
    open spec fn obeys_from_spec() -> bool {
        true
    }

    open spec fn from_spec(value: u64) -> Weight {
        Weight(value)
    }
}

impl From<Weight> for u128 {
    fn from(weight: Weight) -> (result: u128) {
        weight.0 as u128
    }
}

impl vstd::std_specs::convert::FromSpecImpl<Weight> for u128 {
    open spec fn obeys_from_spec() -> bool {
        true
    }

    open spec fn from_spec(weight: Weight) -> u128 {
        weight.0 as u128
    }
}

} // verus!
