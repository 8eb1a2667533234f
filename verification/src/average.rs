//! Averages and extremes of amounts.

use vstd::prelude::*;

use crate::amount::{
    at_most, is_at_most, totally_ordered, truncated_quotient, whole_units_can_be_ranked_and_added,
    whole_units_count_as_integers, Amount,
};

verus! {

/// The weight that `weight` stands for: itself where it is an ordinary number
/// above zero, and one otherwise.
pub open spec fn normalized_weight<A: Amount>(weight: A) -> A {
    if weight.finite() && A::whole(0).below(weight) {
        weight
    } else {
        A::whole(1)
    }
}

/// The sum of the values of `pairs`, each times its weight. A value that is no
/// ordinary number is left out.
pub open spec fn weighted_sum<A: Amount>(pairs: Seq<(A, A)>) -> A
    decreases pairs.len(),
{
    if pairs.len() == 0 {
        A::whole(0)
    } else {
        let (value, weight) = pairs.last();
        let before = weighted_sum(pairs.drop_last());
        if value.finite() {
            before.sum(value.product(normalized_weight(weight)))
        } else {
            before
        }
    }
}

/// The sum of the weights of `pairs`. The weight of a value that is no ordinary
/// number is left out.
pub open spec fn weight_sum<A: Amount>(pairs: Seq<(A, A)>) -> A
    decreases pairs.len(),
{
    if pairs.len() == 0 {
        A::whole(0)
    } else {
        let (value, weight) = pairs.last();
        let before = weight_sum(pairs.drop_last());
        if value.finite() {
            before.sum(normalized_weight(weight))
        } else {
            before
        }
    }
}

/// The average of the values of `pairs` by their weights, or zero where no weight
/// is left.
pub open spec fn weighted_mean<A: Amount>(pairs: Seq<(A, A)>) -> A {
    if at_most(weight_sum(pairs), A::whole(0)) {
        A::whole(0)
    } else {
        weighted_sum(pairs).quotient(weight_sum(pairs))
    }
}

/// The average of values by their weights: each of `values` is a value and its
/// weight.
pub fn weighted_average<A: Amount>(values: &[(A, A)]) -> (r: A)
    ensures
        r == weighted_mean(values@),
{
    let mut sum: A = A::from_int(0);
    let mut total: A = A::from_int(0);
    let mut i: usize = 0;
    while i < values.len()
        invariant
            i <= values.len(),
            sum == weighted_sum(values@.take(i as int)),
            total == weight_sum(values@.take(i as int)),
        decreases values.len() - i,
    {
        let (value, weight) = values[i];
        assert(values@.take(i + 1).drop_last() =~= values@.take(i as int));
        if value.is_finite() {
            let counted: A = if weight.is_finite() && A::from_int(0).less_than(weight) {
                weight
            } else {
                A::from_int(1)
            };
            sum = sum.plus(value.times(counted));
            total = total.plus(counted);
        }
        i = i + 1;
    }
    assert(values@.take(i as int) =~= values@);
    if is_at_most(total, A::from_int(0)) {
        A::from_int(0)
    } else {
        sum.divided_by(total)
    }
}

/// A value that is no ordinary number does not change the average.
pub proof fn average_ignores_what_is_not_finite<A: Amount>(pairs: Seq<(A, A)>)
    ensures
        weighted_mean(pairs) == weighted_mean(pairs.filter(|pair: (A, A)| pair.0.finite())),
{
    lemma_sums_ignore_what_is_not_finite(pairs);
}

proof fn lemma_sums_ignore_what_is_not_finite<A: Amount>(pairs: Seq<(A, A)>)
    ensures
        weighted_sum(pairs) == weighted_sum(pairs.filter(|pair: (A, A)| pair.0.finite())),
        weight_sum(pairs) == weight_sum(pairs.filter(|pair: (A, A)| pair.0.finite())),
    decreases pairs.len(),
{
    let keep = |pair: (A, A)| pair.0.finite();
    reveal_with_fuel(Seq::filter, 1);
    if pairs.len() > 0 {
        let rest = pairs.drop_last();
        lemma_sums_ignore_what_is_not_finite(rest);
        let before = rest.filter(keep);
        if pairs.last().0.finite() {
            assert(pairs.filter(keep) == before.push(pairs.last()));
            assert(before.push(pairs.last()).drop_last() =~= before);
        }
    }
}

/// Nor does it matter where such a value stands: with it or without it the average is
/// the same.
pub proof fn average_ignores_a_value_that_is_not_finite<A: Amount>(
    before: Seq<(A, A)>,
    pair: (A, A),
    after: Seq<(A, A)>,
)
    requires
        !pair.0.finite(),
    ensures
        weighted_mean(before + seq![pair] + after) == weighted_mean(before + after),
{
    let keep = |pair: (A, A)| pair.0.finite();
    reveal_with_fuel(Seq::filter, 2);
    assert(seq![pair].drop_last() =~= seq![]);
    assert(seq![pair].filter(keep) =~= seq![]);
    Seq::filter_distributes_over_add(before + seq![pair], after, keep);
    Seq::filter_distributes_over_add(before, seq![pair], keep);
    Seq::filter_distributes_over_add(before, after, keep);
    assert((before + seq![pair] + after).filter(keep) =~= (before + after).filter(keep));
    average_ignores_what_is_not_finite(before + seq![pair] + after);
    average_ignores_what_is_not_finite(before + after);
}

/// Without any ordinary number among the values the average is zero.
pub proof fn average_of_nothing_finite_is_zero<A: Amount>(pairs: Seq<(A, A)>)
    requires
        forall|i: int| 0 <= i < pairs.len() ==> !(#[trigger] pairs[i]).0.finite(),
    ensures
        weighted_mean(pairs) == A::whole(0),
{
    A::zero_is_itself();
    lemma_no_weight_without_finite_values(pairs);
}

proof fn lemma_no_weight_without_finite_values<A: Amount>(pairs: Seq<(A, A)>)
    requires
        forall|i: int| 0 <= i < pairs.len() ==> !(#[trigger] pairs[i]).0.finite(),
    ensures
        weight_sum(pairs) == A::whole(0),
    decreases pairs.len(),
{
    if pairs.len() > 0 {
        let rest = pairs.drop_last();
        assert(forall|i: int| 0 <= i < rest.len() ==> rest[i] == pairs[i]);
        assert(!pairs[pairs.len() - 1].0.finite());
        lemma_no_weight_without_finite_values(rest);
    }
}

/// A weight that is no ordinary number above zero counts as one.
pub proof fn average_counts_a_missing_weight_as_one<A: Amount>(pairs: Seq<(A, A)>)
    ensures
        weighted_mean(pairs) == weighted_mean(
            Seq::new(pairs.len(), |i: int| (pairs[i].0, normalized_weight(pairs[i].1))),
        ),
{
    A::one_is_above_zero();
    lemma_sums_count_a_missing_weight_as_one(pairs);
}

proof fn lemma_sums_count_a_missing_weight_as_one<A: Amount>(pairs: Seq<(A, A)>)
    requires
        A::whole(1).finite(),
        A::whole(0).below(A::whole(1)),
    ensures
        ({
            let counted = Seq::new(
                pairs.len(),
                |i: int| (pairs[i].0, normalized_weight(pairs[i].1)),
            );
            &&& weighted_sum(pairs) == weighted_sum(counted)
            &&& weight_sum(pairs) == weight_sum(counted)
        }),
    decreases pairs.len(),
{
    if pairs.len() > 0 {
        let rest = pairs.drop_last();
        lemma_sums_count_a_missing_weight_as_one(rest);
        let counted = Seq::new(pairs.len(), |i: int| (pairs[i].0, normalized_weight(pairs[i].1)));
        assert(counted.drop_last() =~= Seq::new(
            rest.len(),
            |i: int| (rest[i].0, normalized_weight(rest[i].1)),
        ));
    }
}

/// The lowest of `prices`, not counting those that compare to nothing. Of equal
/// ones it is the first.
pub open spec fn lowest<A: Amount>(prices: Seq<A>) -> Option<A>
    decreases prices.len(),
{
    if prices.len() == 0 {
        None
    } else {
        match lowest(prices.drop_last()) {
            Some(low) => if prices.last().below(low) {
                Some(prices.last())
            } else {
                Some(low)
            },
            None => if prices.last().same(prices.last()) {
                Some(prices.last())
            } else {
                None
            },
        }
    }
}

/// The highest of `prices`, not counting those that compare to nothing. Of equal
/// ones it is the first.
pub open spec fn highest<A: Amount>(prices: Seq<A>) -> Option<A>
    decreases prices.len(),
{
    if prices.len() == 0 {
        None
    } else {
        match highest(prices.drop_last()) {
            Some(high) => if high.below(prices.last()) {
                Some(prices.last())
            } else {
                Some(high)
            },
            None => if prices.last().same(prices.last()) {
                Some(prices.last())
            } else {
                None
            },
        }
    }
}

/// The extremes are prices themselves, and every price lies between them.
pub proof fn extremes_bracket_every_price<A: Amount>(
    domain: spec_fn(A) -> bool,
    prices: Seq<A>,
)
    requires
        totally_ordered(domain),
        prices.len() > 0,
        forall|i: int| 0 <= i < prices.len() ==> domain(#[trigger] prices[i]),
        forall|i: int| 0 <= i < prices.len() ==> (#[trigger] prices[i]).same(prices[i]),
    ensures
        lowest(prices) matches Some(low) && prices.contains(low) && forall|i: int|
            0 <= i < prices.len() ==> !(#[trigger] prices[i]).below(low),
        highest(prices) matches Some(high) && prices.contains(high) && forall|i: int|
            0 <= i < prices.len() ==> !high.below(#[trigger] prices[i]),
    decreases prices.len(),
{
    let rest = prices.drop_last();
    let last = prices.len() - 1;
    assert(forall|i: int| 0 <= i < rest.len() ==> rest[i] == prices[i]);
    assert(prices[last] == prices.last());
    if rest.len() == 0 {
        assert(lowest(rest) is None && highest(rest) is None);
    } else {
        extremes_bracket_every_price(domain, rest);
        let low = lowest(rest)->0;
        let high = highest(rest)->0;
        let at_low = choose|i: int| 0 <= i < rest.len() && rest[i] == low;
        let at_high = choose|i: int| 0 <= i < rest.len() && rest[i] == high;
        assert(prices[at_low] == low && prices[at_high] == high);
        assert forall|i: int| 0 <= i < prices.len() implies !(#[trigger] prices[i]).below(
            lowest(prices)->0,
        ) by {
            if i < last {
                assert(!rest[i].below(low));
                assert(!low.below(prices.last()) || !prices.last().below(low));
            }
        }
        assert forall|i: int| 0 <= i < prices.len() implies !(highest(prices)->0).below(
            #[trigger] prices[i],
        ) by {
            if i < last {
                assert(!high.below(rest[i]));
                assert(!high.below(prices.last()) || !prices.last().below(high));
            }
        }
    }
}

/// Whether `n` is within the limits of `i64`.
pub open spec fn within_limits(n: int) -> bool {
    i64::MIN <= n <= i64::MAX
}

/// Whether averaging `pairs` stays within the limits of `i64`: each value times its
/// weight does, and so do the sums of these and of the weights, one pair after another.
pub open spec fn reaches_no_limit(pairs: Seq<(i64, i64)>) -> bool {
    forall|n: int|
        0 <= n < pairs.len() ==> {
            let (value, weight) = #[trigger] pairs[n];
            let counted = normalized_weight(weight);
            &&& within_limits(value * counted)
            &&& within_limits(weighted_sum(pairs.take(n)) + value * counted)
            &&& within_limits(weight_sum(pairs.take(n)) + counted)
        }
}

/// The average lies between the least and the greatest of the values. This is said of
/// whole units, as long as the sums reach no limit: a sum that is rounded or cut off can
/// take the average beyond the values.
pub proof fn average_lies_between_the_extremes(pairs: Seq<(i64, i64)>)
    requires
        pairs.len() > 0,
        reaches_no_limit(pairs),
    ensures
        ({
            let values = Seq::new(pairs.len(), |i: int| pairs[i].0);
            &&& lowest(values) matches Some(low) && low <= weighted_mean(pairs)
            &&& highest(values) matches Some(high) && weighted_mean(pairs) <= high
        }),
{
    let values = Seq::new(pairs.len(), |i: int| pairs[i].0);
    whole_units_can_be_ranked_and_added();
    extremes_bracket_every_price(|a: i64| true, values);
    let low = lowest(values)->0;
    let high = highest(values)->0;
    assert forall|i: int| 0 <= i < pairs.len() implies low <= (#[trigger] pairs[i]).0 <= high by {
        assert(!values[i].below(low) && !high.below(values[i]));
    }
    assert(pairs.take(pairs.len() as int) =~= pairs);
    lemma_sums_are_between(pairs, pairs.len() as int, low, high);
    lemma_quotient_is_between(
        weighted_sum(pairs) as int,
        weight_sum(pairs) as int,
        low as int,
        high as int,
    );
}

/// The sum of values from `low` to `high`, each times its weight, lies between `low` and
/// `high` times the sum of the weights.
proof fn lemma_sums_are_between(pairs: Seq<(i64, i64)>, n: int, low: i64, high: i64)
    requires
        reaches_no_limit(pairs),
        0 <= n <= pairs.len(),
        forall|i: int| 0 <= i < pairs.len() ==> low <= (#[trigger] pairs[i]).0 <= high,
    ensures
        n <= weight_sum(pairs.take(n)),
        low * weight_sum(pairs.take(n)) <= weighted_sum(pairs.take(n)) <= high * weight_sum(
            pairs.take(n),
        ),
    decreases n,
{
    if n > 0 {
        let (value, weight) = pairs[n - 1];
        let counted = normalized_weight(weight);
        let before = weight_sum(pairs.take(n - 1));
        lemma_sums_are_between(pairs, n - 1, low, high);
        assert(pairs.take(n).drop_last() =~= pairs.take(n - 1));
        assert(low * (before + counted) == low * before + low * counted) by (nonlinear_arith);
        assert(high * (before + counted) == high * before + high * counted) by (nonlinear_arith);
        assert(low * counted <= value * counted <= high * counted) by (nonlinear_arith)
            requires
                low <= value <= high,
                0 < counted,
        ;
    } else {
        assert(pairs.take(n).len() == 0);
    }
}

/// What lies between `low` and `high` times `parts` gives, divided by `parts`, something
/// between `low` and `high`.
proof fn lemma_quotient_is_between(whole: int, parts: int, low: int, high: int)
    requires
        0 < parts,
        low * parts <= whole <= high * parts,
    ensures
        low <= truncated_quotient(whole, parts) <= high,
{
    if whole >= 0 {
        lemma_floor_is_between(whole, parts, low, high);
    } else {
        assert((-high) * parts == -(high * parts)) by (nonlinear_arith);
        assert((-low) * parts == -(low * parts)) by (nonlinear_arith);
        lemma_floor_is_between(-whole, parts, -high, -low);
    }
}

proof fn lemma_floor_is_between(whole: int, parts: int, low: int, high: int)
    by (nonlinear_arith)
    requires
        0 < parts,
        low * parts <= whole <= high * parts,
    ensures
        low <= whole / parts <= high,
{
}

/// What `price` holds, where that is an ordinary number, and zero otherwise.
pub open spec fn finite_or_zero<A: Amount>(price: Option<A>) -> A {
    match price {
        Some(p) if p.finite() => p,
        _ => A::whole(0),
    }
}

/// Computes [`finite_or_zero`].
fn take_finite<A: Amount>(price: Option<A>) -> (r: A)
    ensures
        r == finite_or_zero(price),
{
    match price {
        Some(p) => if p.is_finite() {
            p
        } else {
            A::from_int(0)
        },
        None => A::from_int(0),
    }
}

/// The lowest of `prices`, or zero where there is none or it is no ordinary number.
pub fn lowest_price<A: Amount>(prices: &[A]) -> (r: A)
    ensures
        r == finite_or_zero(lowest(prices@)),
{
    let mut low: Option<A> = None;
    let mut i: usize = 0;
    while i < prices.len()
        invariant
            i <= prices.len(),
            low == lowest(prices@.take(i as int)),
        decreases prices.len() - i,
    {
        let price: A = prices[i];
        assert(prices@.take(i + 1).drop_last() =~= prices@.take(i as int));
        match low {
            Some(l) => {
                if price.less_than(l) {
                    low = Some(price);
                }
            },
            None => {
                if price.equals(price) {
                    low = Some(price);
                }
            },
        }
        i = i + 1;
    }
    assert(prices@.take(i as int) =~= prices@);
    take_finite(low)
}

/// The highest of `prices`, or zero where there is none or it is no ordinary number.
pub fn highest_price<A: Amount>(prices: &[A]) -> (r: A)
    ensures
        r == finite_or_zero(highest(prices@)),
{
    let mut high: Option<A> = None;
    let mut i: usize = 0;
    while i < prices.len()
        invariant
            i <= prices.len(),
            high == highest(prices@.take(i as int)),
        decreases prices.len() - i,
    {
        let price: A = prices[i];
        assert(prices@.take(i + 1).drop_last() =~= prices@.take(i as int));
        match high {
            Some(h) => {
                if h.less_than(price) {
                    high = Some(price);
                }
            },
            None => {
                if price.equals(price) {
                    high = Some(price);
                }
            },
        }
        i = i + 1;
    }
    assert(prices@.take(i as int) =~= prices@);
    take_finite(high)
}

/// The volume that `volume` counts for: nothing where it is no ordinary number or
/// below zero.
pub open spec fn counted_volume<A: Amount>(volume: A) -> A {
    if volume.finite() && !volume.below(A::whole(0)) {
        volume
    } else {
        A::whole(0)
    }
}

/// The sum of what `volumes` count for.
pub open spec fn volume_sum<A: Amount>(volumes: Seq<A>) -> A
    decreases volumes.len(),
{
    if volumes.len() == 0 {
        A::whole(0)
    } else {
        volume_sum(volumes.drop_last()).sum(counted_volume(volumes.last()))
    }
}

/// The sum of `volumes`, where one that is no ordinary number or below zero counts
/// for nothing.
pub fn total_volume<A: Amount>(volumes: &[A]) -> (r: A)
    ensures
        r == volume_sum(volumes@),
{
    let mut total: A = A::from_int(0);
    let mut i: usize = 0;
    while i < volumes.len()
        invariant
            i <= volumes.len(),
            total == volume_sum(volumes@.take(i as int)),
        decreases volumes.len() - i,
    {
        let volume: A = volumes[i];
        assert(volumes@.take(i + 1).drop_last() =~= volumes@.take(i as int));
        let counted: A = if volume.is_finite() && !volume.less_than(A::from_int(0)) {
            volume
        } else {
            A::from_int(0)
        };
        total = total.plus(counted);
        i = i + 1;
    }
    assert(volumes@.take(i as int) =~= volumes@);
    total
}

/// The average is the sum of the values, each times its weight, divided by the sum of the
/// weights, where `sums` and `weights` are these sums as they grow pair by pair: a value
/// that is no ordinary number adds to neither, and a weight that is no ordinary number
/// above zero counts as one. It is zero where the weights come to no more than zero.
pub proof fn average_is_the_quotient_of_growing_sums<A: Amount>(
    values: &[(A, A)],
    r: A,
    sums: Seq<A>,
    weights: Seq<A>,
)
    requires
        call_ensures(weighted_average::<A>, (values,), r),
        sums.len() == values@.len() + 1,
        weights.len() == values@.len() + 1,
        sums[0] == A::whole(0),
        weights[0] == A::whole(0),
        forall|i: int|
            0 <= i < values@.len() && !(#[trigger] values@[i]).0.finite() ==> sums[i + 1] == sums[i]
                && weights[i + 1] == weights[i],
        forall|i: int|
            0 <= i < values@.len() && (#[trigger] values@[i]).0.finite() ==> {
                let (value, weight) = values@[i];
                let counted = if weight.finite() && A::whole(0).below(weight) {
                    weight
                } else {
                    A::whole(1)
                };
                &&& sums[i + 1] == sums[i].sum(value.product(counted))
                &&& weights[i + 1] == weights[i].sum(counted)
            },
    ensures
        ({
            let total = weights[values@.len() as int];
            if total.below(A::whole(0)) || total.same(A::whole(0)) {
                r == A::whole(0)
            } else {
                r == sums[values@.len() as int].quotient(total)
            }
        }),
{
    let n = values@.len() as int;
    lemma_growing_sums(values@, sums, weights, n);
    assert(values@.take(n) =~= values@);
}

proof fn lemma_growing_sums<A: Amount>(
    values: Seq<(A, A)>,
    sums: Seq<A>,
    weights: Seq<A>,
    n: int,
)
    requires
        sums.len() == values.len() + 1,
        weights.len() == values.len() + 1,
        sums[0] == A::whole(0),
        weights[0] == A::whole(0),
        forall|i: int|
            0 <= i < values.len() && !(#[trigger] values[i]).0.finite() ==> sums[i + 1] == sums[i]
                && weights[i + 1] == weights[i],
        forall|i: int|
            0 <= i < values.len() && (#[trigger] values[i]).0.finite() ==> {
                let (value, weight) = values[i];
                let counted = if weight.finite() && A::whole(0).below(weight) {
                    weight
                } else {
                    A::whole(1)
                };
                &&& sums[i + 1] == sums[i].sum(value.product(counted))
                &&& weights[i + 1] == weights[i].sum(counted)
            },
        0 <= n <= values.len(),
    ensures
        sums[n] == weighted_sum(values.take(n)),
        weights[n] == weight_sum(values.take(n)),
    decreases n,
{
    if n > 0 {
        lemma_growing_sums(values, sums, weights, n - 1);
        assert(values.take(n).drop_last() =~= values.take(n - 1));
        assert(values.take(n).last() == values[n - 1]);
        assert(values[n - 1].0.finite() || !values[n - 1].0.finite());
    }
}

/// The first `n` values in whole units, each times its weight, added up as integers. A
/// weight of zero or less counts as one.
pub open spec fn exact_sum(values: Seq<(i64, i64)>, n: int) -> int
    decreases n,
{
    if n <= 0 {
        0
    } else {
        exact_sum(values, n - 1) + values[n - 1].0 * (if values[n - 1].1 > 0 {
            values[n - 1].1 as int
        } else {
            1
        })
    }
}

/// The first `n` weights in whole units, added up as integers. A weight of zero or less
/// counts as one.
pub open spec fn exact_weight(values: Seq<(i64, i64)>, n: int) -> int
    decreases n,
{
    if n <= 0 {
        0
    } else {
        exact_weight(values, n - 1) + (if values[n - 1].1 > 0 {
            values[n - 1].1 as int
        } else {
            1
        })
    }
}

/// Whether no value times its weight and no sum of these or of the weights is beyond the
/// limits of `i64`.
pub open spec fn sums_fit(values: Seq<(i64, i64)>) -> bool {
    forall|n: int|
        0 < n <= values.len() ==> {
            &&& i64::MIN <= #[trigger] exact_sum(values, n) <= i64::MAX
            &&& i64::MIN <= exact_sum(values, n) - exact_sum(values, n - 1) <= i64::MAX
            &&& exact_weight(values, n) <= i64::MAX
        }
}

proof fn lemma_sums_are_exact(values: Seq<(i64, i64)>, n: int)
    requires
        sums_fit(values),
        0 <= n <= values.len(),
    ensures
        weighted_sum(values.take(n)) == exact_sum(values, n),
        weight_sum(values.take(n)) == exact_weight(values, n),
        n <= exact_weight(values, n),
    decreases n,
{
    if n > 0 {
        lemma_sums_are_exact(values, n - 1);
        assert(values.take(n).drop_last() =~= values.take(n - 1));
        assert(values.take(n).last() == values[n - 1]);
        assert(i64::MIN <= exact_sum(values, n) <= i64::MAX);
    } else {
        assert(values.take(n).len() == 0);
    }
}

/// In whole units the average times the sum of the weights misses the sum of the values,
/// each times its weight, by less than the sum of the weights, and on the side of zero.
pub proof fn average_times_weights_is_the_sum(values: &[(i64, i64)], r: i64)
    requires
        call_ensures(weighted_average::<i64>, (values,), r),
        values@.len() > 0,
        sums_fit(values@),
    ensures
        ({
            let sum = exact_sum(values@, values@.len() as int);
            let weight = exact_weight(values@, values@.len() as int);
            &&& values@.len() <= weight
            &&& 0 <= sum ==> 0 <= sum - r * weight < weight
            &&& sum < 0 ==> -weight < sum - r * weight <= 0
        }),
{
    lemma_mean_times_weights(values@);
}

/// The mean times the sum of the weights misses the sum by less than the former.
pub(crate) proof fn lemma_mean_times_weights(values: Seq<(i64, i64)>)
    requires
        sums_fit(values),
    ensures
        ({
            let sum = exact_sum(values, values.len() as int);
            let weight = exact_weight(values, values.len() as int);
            &&& values.len() <= weight
            &&& values.len() > 0 && 0 <= sum ==> 0 <= sum - weighted_mean(values) * weight < weight
            &&& values.len() > 0 && sum < 0 ==> -weight < sum - weighted_mean(values) * weight <= 0
        }),
{
    let n = values.len() as int;
    assert(values.take(n) =~= values);
    lemma_sums_are_exact(values, n);
    whole_units_count_as_integers(weighted_sum(values), weight_sum(values));
}

proof fn lemma_exact_sums_of_parts(a: Seq<(i64, i64)>, b: Seq<(i64, i64)>, n: int)
    requires
        0 <= n <= b.len(),
    ensures
        exact_sum(a + b, a.len() + n) == exact_sum(a, a.len() as int) + exact_sum(b, n),
        exact_weight(a + b, a.len() + n) == exact_weight(a, a.len() as int) + exact_weight(b, n),
    decreases n,
{
    if n > 0 {
        lemma_exact_sums_of_parts(a, b, n - 1);
        assert((a + b)[a.len() + n - 1] == b[n - 1]);
    } else {
        lemma_exact_sums_of_prefix(a, b, a.len() as int);
    }
}

proof fn lemma_exact_sums_of_prefix(a: Seq<(i64, i64)>, b: Seq<(i64, i64)>, n: int)
    requires
        0 <= n <= a.len(),
    ensures
        exact_sum(a + b, n) == exact_sum(a, n),
        exact_weight(a + b, n) == exact_weight(a, n),
    decreases n,
{
    if n > 0 {
        lemma_exact_sums_of_prefix(a, b, n - 1);
        assert((a + b)[n - 1] == a[n - 1]);
    }
}

/// The order of the values does not matter: changing two neighbouring stretches of them
/// round leaves the average in whole units as it is.
pub proof fn average_does_not_depend_on_order(
    values: &[(i64, i64)],
    r: i64,
    reordered: &[(i64, i64)],
    other: i64,
    first: Seq<(i64, i64)>,
    second: Seq<(i64, i64)>,
    rest: Seq<(i64, i64)>,
)
    requires
        call_ensures(weighted_average::<i64>, (values,), r),
        call_ensures(weighted_average::<i64>, (reordered,), other),
        values@ == first + second + rest,
        reordered@ == second + first + rest,
        sums_fit(values@),
        sums_fit(reordered@),
    ensures
        r == other,
{
    let n = values@.len() as int;
    assert(values@.take(n) =~= values@ && reordered@.take(n) =~= reordered@);
    lemma_sums_are_exact(values@, n);
    lemma_sums_are_exact(reordered@, n);
    lemma_exact_sums_of_parts(first, second, second.len() as int);
    lemma_exact_sums_of_parts(second, first, first.len() as int);
    lemma_exact_sums_of_parts(first + second, rest, rest.len() as int);
    lemma_exact_sums_of_parts(second + first, rest, rest.len() as int);
}

/// Whether `price` is none that can be ranked: it is not even equal to itself, and
/// neither above nor below anything.
pub open spec fn compares_to_nothing<A: Amount>(price: A) -> bool {
    &&& !price.same(price)
    &&& forall|other: A| !(#[trigger] price.below(other))
    &&& forall|other: A| !(#[trigger] other.below(price))
}

/// Whether each of `prices` compares to nothing, or can be ranked among those that
/// satisfy `domain`.
pub open spec fn rankable<A: Amount>(domain: spec_fn(A) -> bool, prices: Seq<A>) -> bool {
    &&& totally_ordered(domain)
    &&& forall|i: int|
        0 <= i < prices.len() ==> compares_to_nothing(#[trigger] prices[i]) || (domain(prices[i])
            && prices[i].same(prices[i]))
}

/// Whether the price at `i` is the first of the greatest that can be ranked.
spec fn is_first_greatest<A: Amount>(prices: Seq<A>, i: int) -> bool {
    &&& 0 <= i < prices.len()
    &&& prices[i].same(prices[i])
    &&& forall|j: int| 0 <= j < prices.len() ==> !prices[i].below(#[trigger] prices[j])
    &&& forall|j: int|
        0 <= j < i && (#[trigger] prices[j]).same(prices[j]) ==> prices[j].below(prices[i])
}

/// Whether the price at `i` is the first of the least that can be ranked.
spec fn is_first_least<A: Amount>(prices: Seq<A>, i: int) -> bool {
    &&& 0 <= i < prices.len()
    &&& prices[i].same(prices[i])
    &&& forall|j: int| 0 <= j < prices.len() ==> !(#[trigger] prices[j]).below(prices[i])
    &&& forall|j: int|
        0 <= j < i && (#[trigger] prices[j]).same(prices[j]) ==> prices[i].below(prices[j])
}

proof fn lemma_greatest<A: Amount>(domain: spec_fn(A) -> bool, prices: Seq<A>) -> (at: int)
    requires
        rankable(domain, prices),
    ensures
        match highest(prices) {
            Some(high) => is_first_greatest(prices, at) && prices[at] == high,
            None => forall|j: int| 0 <= j < prices.len() ==> compares_to_nothing(#[trigger] prices[j]),
        },
    decreases prices.len(),
{
    if prices.len() == 0 {
        0
    } else {
        let rest = prices.drop_last();
        let last = prices.len() - 1;
        assert(forall|j: int| 0 <= j < rest.len() ==> rest[j] == prices[j]);
        assert(prices[last] == prices.last());
        let before = lemma_greatest(domain, rest);
        match highest(rest) {
            Some(high) => {
                assert(prices[before] == high);
                assert(rest[before] == prices[before]);
                let at = if high.below(prices.last()) { last } else { before };
                assert forall|j: int| 0 <= j < prices.len() implies !prices[at].below(
                    #[trigger] prices[j],
                ) by {
                    if j < last {
                        assert(!rest[before].below(rest[j]));
                        assert(compares_to_nothing(prices[j]) || domain(prices[j]));
                        assert(!prices.last().below(high) || !high.below(prices.last()));
                    }
                }
                assert forall|j: int|
                    0 <= j < at && (#[trigger] prices[j]).same(prices[j]) implies prices[j].below(
                    prices[at],
                ) by {
                    assert(rest[j] == prices[j]);
                    if at == last && !prices[j].below(prices[last]) {
                        assert(!prices[last].below(high));
                        assert(!rest[before].below(rest[j]));
                        assert(!prices[j].below(high));
                        assert(domain(high) && domain(prices[last]) && domain(prices[j]));
                        assert(!high.below(prices[last]));
                    }
                }
                at
            },
            None => last,
        }
    }
}

proof fn lemma_least<A: Amount>(domain: spec_fn(A) -> bool, prices: Seq<A>) -> (at: int)
    requires
        rankable(domain, prices),
    ensures
        match lowest(prices) {
            Some(low) => is_first_least(prices, at) && prices[at] == low,
            None => forall|j: int| 0 <= j < prices.len() ==> compares_to_nothing(#[trigger] prices[j]),
        },
    decreases prices.len(),
{
    if prices.len() == 0 {
        0
    } else {
        let rest = prices.drop_last();
        let last = prices.len() - 1;
        assert(forall|j: int| 0 <= j < rest.len() ==> rest[j] == prices[j]);
        assert(prices[last] == prices.last());
        let before = lemma_least(domain, rest);
        match lowest(rest) {
            Some(low) => {
                assert(prices[before] == low);
                assert(rest[before] == prices[before]);
                let at = if prices.last().below(low) { last } else { before };
                assert forall|j: int| 0 <= j < prices.len() implies !(#[trigger] prices[j]).below(
                    prices[at],
                ) by {
                    if j < last {
                        assert(!rest[j].below(rest[before]));
                        assert(compares_to_nothing(prices[j]) || domain(prices[j]));
                        assert(!low.below(prices.last()) || !prices.last().below(low));
                    }
                }
                assert forall|j: int|
                    0 <= j < at && (#[trigger] prices[j]).same(prices[j]) implies prices[at].below(
                    prices[j],
                ) by {
                    assert(rest[j] == prices[j]);
                    if at == last && !prices[last].below(prices[j]) {
                        assert(!low.below(prices[last]));
                        assert(!rest[j].below(rest[before]));
                        assert(domain(low) && domain(prices[last]) && domain(prices[j]));
                        assert(!prices[j].below(low));
                        assert(!prices[last].below(low));
                    }
                }
                at
            },
            None => last,
        }
    }
}

/// The highest price is the first of the greatest that can be ranked, or zero where that
/// is no ordinary number or where none can be ranked.
pub proof fn highest_price_is_the_greatest<A: Amount>(
    domain: spec_fn(A) -> bool,
    prices: &[A],
    r: A,
    at: int,
)
    requires
        call_ensures(highest_price::<A>, (prices,), r),
        rankable(domain, prices@),
    ensures
        ({
            &&& 0 <= at < prices@.len()
            &&& prices@[at].same(prices@[at])
            &&& forall|j: int| 0 <= j < prices@.len() ==> !prices@[at].below(#[trigger] prices@[j])
            &&& forall|j: int|
                0 <= j < at && (#[trigger] prices@[j]).same(prices@[j]) ==> prices@[j].below(
                    prices@[at],
                )
        }) ==> r == if prices@[at].finite() {
            prices@[at]
        } else {
            A::whole(0)
        },
        (forall|j: int| 0 <= j < prices@.len() ==> !(#[trigger] prices@[j]).same(prices@[j])) ==> r
            == A::whole(0),
        !r.same(A::whole(0)) ==> r.finite() && prices@.contains(r),
{
    let there = lemma_greatest(domain, prices@);
    if highest(prices@) is Some {
        assert(prices@[there].same(prices@[there]));
        if is_first_greatest(prices@, at) {
            assert(!prices@[at].below(prices@[there]) && !prices@[there].below(prices@[at]));
            assert(at == there);
        }
    } else if 0 <= at < prices@.len() {
        assert(compares_to_nothing(prices@[at]));
    }
    A::zero_is_itself();
}

/// The lowest price is the first of the least that can be ranked, or zero where that is
/// no ordinary number or where none can be ranked.
pub proof fn lowest_price_is_the_least<A: Amount>(
    domain: spec_fn(A) -> bool,
    prices: &[A],
    r: A,
    at: int,
)
    requires
        call_ensures(lowest_price::<A>, (prices,), r),
        rankable(domain, prices@),
    ensures
        ({
            &&& 0 <= at < prices@.len()
            &&& prices@[at].same(prices@[at])
            &&& forall|j: int| 0 <= j < prices@.len() ==> !(#[trigger] prices@[j]).below(prices@[at])
            &&& forall|j: int|
                0 <= j < at && (#[trigger] prices@[j]).same(prices@[j]) ==> prices@[at].below(
                    prices@[j],
                )
        }) ==> r == if prices@[at].finite() {
            prices@[at]
        } else {
            A::whole(0)
        },
        (forall|j: int| 0 <= j < prices@.len() ==> !(#[trigger] prices@[j]).same(prices@[j])) ==> r
            == A::whole(0),
        !r.same(A::whole(0)) ==> r.finite() && prices@.contains(r),
{
    let there = lemma_least(domain, prices@);
    if lowest(prices@) is Some {
        assert(prices@[there].same(prices@[there]));
        if is_first_least(prices@, at) {
            assert(!prices@[at].below(prices@[there]) && !prices@[there].below(prices@[at]));
            assert(at == there);
        }
    } else if 0 <= at < prices@.len() {
        assert(compares_to_nothing(prices@[at]));
    }
    A::zero_is_itself();
}

/// The total volume is the sum of the volumes, where `totals` is this sum as it grows: a
/// volume that is no ordinary number or below zero adds zero.
pub proof fn total_volume_is_the_growing_sum<A: Amount>(volumes: &[A], r: A, totals: Seq<A>)
    requires
        call_ensures(total_volume::<A>, (volumes,), r),
        totals.len() == volumes@.len() + 1,
        totals[0] == A::whole(0),
        forall|i: int|
            0 <= i < volumes@.len() ==> totals[i + 1] == totals[i].sum(
                if (#[trigger] volumes@[i]).finite() && !volumes@[i].below(A::whole(0)) {
                    volumes@[i]
                } else {
                    A::whole(0)
                },
            ),
    ensures
        r == totals[volumes@.len() as int],
{
    let n = volumes@.len() as int;
    lemma_growing_volume(volumes@, totals, n);
    assert(volumes@.take(n) =~= volumes@);
}

proof fn lemma_growing_volume<A: Amount>(volumes: Seq<A>, totals: Seq<A>, n: int)
    requires
        totals.len() == volumes.len() + 1,
        totals[0] == A::whole(0),
        forall|i: int|
            0 <= i < volumes.len() ==> totals[i + 1] == totals[i].sum(
                if (#[trigger] volumes[i]).finite() && !volumes[i].below(A::whole(0)) {
                    volumes[i]
                } else {
                    A::whole(0)
                },
            ),
        0 <= n <= volumes.len(),
    ensures
        totals[n] == volume_sum(volumes.take(n)),
    decreases n,
{
    if n > 0 {
        lemma_growing_volume(volumes, totals, n - 1);
        assert(volumes.take(n).drop_last() =~= volumes.take(n - 1));
        assert(volumes.take(n).last() == volumes[n - 1]);
    }
}

} // verus!
