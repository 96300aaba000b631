//! The distribution builder: turns the odds of an ordered entity list into
//! integer weights (inverse odds in fixed point) and their cumulative sums.
//! Entity `i` owns the draw interval `[cum[i-1], cum[i])` of `[0, total)`,
//! so its share of the unit interval is exactly `weight(i) / total`.

use vstd::prelude::*;
use crate::entity::Horse;

verus! {

/// Numerator of the fixed-point inverse odds: with odds stored in
/// thousandths, `weight = WEIGHT_NUMERATOR / odds_milli` represents
/// `1/odds` scaled by 1_000_000_000.
pub const WEIGHT_NUMERATOR: u64 = 1_000_000_000_000;

/// Cap on the entity list length, so that the sum of all weights (each at
/// most `WEIGHT_NUMERATOR`) fits in a `u64`.
pub const MAX_HORSES: usize = 10_000_000;

/// The integer weight of an entity with the given fixed-point odds:
/// `1/odds` scaled by a constant, rounded down.
pub open spec fn weight_of(odds_milli: u64) -> int {
    WEIGHT_NUMERATOR as int / odds_milli as int
}

/// Every entity in the sequence has positive odds.
pub open spec fn all_valid(horses: Seq<Horse>) -> bool {
    forall|i: int| 0 <= i < horses.len() ==> (#[trigger] horses[i]).valid()
}

/// The sum of the weights of all entities in the sequence.
pub open spec fn total_weight(horses: Seq<Horse>) -> int
    decreases horses.len(),
{
    if horses.len() == 0 {
        0
    } else {
        total_weight(horses.drop_last()) + weight_of(horses.last().odds_milli)
    }
}

/// The cumulative boundary owned by entity `i`: the sum of the weights of
/// entities `0..=i`.
pub open spec fn cumulative_at(horses: Seq<Horse>, i: int) -> int {
    total_weight(horses.take(i + 1))
}

/// The whole cumulative distribution of an entity list, as a sequence
/// parallel to it.
pub open spec fn cumulative_seq(horses: Seq<Horse>) -> Seq<u64> {
    Seq::new(horses.len(), |i: int| cumulative_at(horses, i) as u64)
}

/// The weight of a valid entity lies in `[0, WEIGHT_NUMERATOR]`.
pub proof fn lemma_weight_bounds(odds_milli: u64)
    requires
        odds_milli > 0,
    ensures
        0 <= weight_of(odds_milli) <= WEIGHT_NUMERATOR,
{
    assert(0 <= WEIGHT_NUMERATOR as int / odds_milli as int <= WEIGHT_NUMERATOR) by (nonlinear_arith)
        requires
            odds_milli >= 1,
    ;
}

/// More favored entities get at least as much weight: if entity `a`'s odds
/// are below entity `b`'s, then `a`'s weight — the width of its interval of
/// the distribution — is at least `b`'s.
pub proof fn lemma_weight_monotone(odds_a: u64, odds_b: u64)
    requires
        0 < odds_a < odds_b,
    ensures
        weight_of(odds_a) >= weight_of(odds_b),
{
    vstd::arithmetic::div_mod::lemma_div_is_ordered_by_denominator(
        WEIGHT_NUMERATOR as int,
        odds_a as int,
        odds_b as int,
    );
}

/// Strictly lower odds give strictly more weight, as long as the product of
/// the two odds stays within the fixed-point numerator (beyond that, both
/// weights can round down to the same value). A more favored entity's
/// interval of the distribution is then strictly wider, so it is strictly
/// more likely to receive a uniform draw.
pub proof fn lemma_weight_strictly_monotone(odds_a: u64, odds_b: u64)
    requires
        0 < odds_a < odds_b,
        odds_a * odds_b <= WEIGHT_NUMERATOR,
    ensures
        weight_of(odds_a) > weight_of(odds_b),
{
    let n = WEIGHT_NUMERATOR as int;
    let a = odds_a as int;
    let b = odds_b as int;
    vstd::arithmetic::div_mod::lemma_fundamental_div_mod(n, a);
    vstd::arithmetic::div_mod::lemma_fundamental_div_mod(n, b);
    vstd::arithmetic::div_mod::lemma_mod_bound(n, a);
    vstd::arithmetic::div_mod::lemma_mod_bound(n, b);
    assert(n / a > n / b) by (nonlinear_arith)
        requires
            0 < a < b,
            a * b <= n,
            n == a * (n / a) + n % a,
            n == b * (n / b) + n % b,
            0 <= n % a < a,
            0 <= n % b < b,
    ;
}

/// Cumulative boundaries are non-decreasing: a later boundary includes
/// every weight an earlier one does, and weights are never negative.
pub proof fn lemma_cumulative_monotone(horses: Seq<Horse>, a: int, b: int)
    requires
        all_valid(horses),
        0 <= a <= b < horses.len(),
    ensures
        cumulative_at(horses, a) <= cumulative_at(horses, b),
    decreases b - a,
{
    if a < b {
        lemma_cumulative_monotone(horses, a, b - 1);
        lemma_weight_bounds(horses[b].odds_milli);
        assert(horses.take(b + 1).drop_last() =~= horses.take(b));
        assert(horses.take(b + 1).last() == horses[b]);
    }
}

/// Builds the cumulative distribution of a non-empty entity list: returns
/// the parallel vector of cumulative weights, whose last element is the
/// total weight. Boundaries are non-decreasing and the final boundary equals
/// the total exactly, so the normalized final boundary is exactly one.
pub fn build_cumulative(horses: &Vec<Horse>) -> (cum: Vec<u64>)
    requires
        all_valid(horses@),
        horses@.len() <= MAX_HORSES,
    ensures
        cum@.len() == horses@.len(),
        forall|i: int| 0 <= i < cum@.len() ==> #[trigger] cum@[i] == cumulative_at(horses@, i),
        forall|i: int| 0 < i < cum@.len() ==> cum@[i - 1] <= #[trigger] cum@[i],
        cum@.len() > 0 ==> cum@.last() == total_weight(horses@),
{
    let mut cum: Vec<u64> = Vec::new();
    let mut sum: u64 = 0;
    let mut i: usize = 0;
    while i < horses.len()
        invariant
            all_valid(horses@),
            horses@.len() <= MAX_HORSES,
            i <= horses@.len(),
            cum@.len() == i,
            sum == total_weight(horses@.take(i as int)),
            sum <= i * WEIGHT_NUMERATOR,
            forall|j: int| 0 <= j < i ==> #[trigger] cum@[j] == cumulative_at(horses@, j),
        decreases horses@.len() - i,
    {
        let w: u64 = WEIGHT_NUMERATOR / horses[i].odds_milli;
        proof {
            lemma_weight_bounds(horses@[i as int].odds_milli);
            assert(horses@.take(i + 1).drop_last() =~= horses@.take(i as int));
            assert(horses@.take(i + 1).last() == horses@[i as int]);
            assert(i * WEIGHT_NUMERATOR + WEIGHT_NUMERATOR == (i + 1) * WEIGHT_NUMERATOR)
                by (nonlinear_arith);
            assert((i + 1) * WEIGHT_NUMERATOR <= MAX_HORSES * WEIGHT_NUMERATOR)
                by (nonlinear_arith)
                requires
                    i + 1 <= MAX_HORSES,
            ;
        }
        sum = sum + w;
        cum.push(sum);
        i = i + 1;
    }
    proof {
        assert(horses@.take(horses@.len() as int) =~= horses@);
        if cum@.len() > 0 {
            assert(cum@.last() == cumulative_at(horses@, horses@.len() - 1));
            assert(horses@.take(horses@.len() - 1 + 1) =~= horses@);
        }
        assert forall|i: int| 0 < i < cum@.len() implies cum@[i - 1] <= #[trigger] cum@[i] by {
            lemma_weight_bounds(horses@[i].odds_milli);
            assert(horses@.take(i + 1).drop_last() =~= horses@.take(i));
            assert(horses@.take(i + 1).last() == horses@[i]);
        }
    }
    cum
}

} // verus!
