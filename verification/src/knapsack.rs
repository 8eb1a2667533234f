//! Choosing what to buy: the most valuable selection that a budget covers.

use vstd::prelude::*;

use crate::amount::{
    adding_keeps_order, losses_gain_nothing, totally_ordered, whole_units_can_be_ranked_and_added,
    Amount,
};

verus! {

/// The greatest value that a selection of `items` can have whose weights fit into
/// `capacity`, found by deciding on the items one after another: the last item
/// joins where it fits and makes the value strictly greater.
pub open spec fn best<A: Amount>(items: Seq<(i64, A, String, String)>, capacity: int) -> A
    decreases items.len(),
{
    if items.len() == 0 {
        A::whole(0)
    } else {
        let (weight, value, _, _) = items.last();
        let without = best(items.drop_last(), capacity);
        let with = best(items.drop_last(), capacity - weight).sum(value);
        if 0 <= weight <= capacity && without.below(with) {
            with
        } else {
            without
        }
    }
}

/// Whether the last of `items` joins the selection for `capacity`.
pub open spec fn takes_last<A: Amount>(
    items: Seq<(i64, A, String, String)>,
    capacity: int,
) -> bool {
    let (weight, value, _, _) = items.last();
    &&& 0 <= weight <= capacity
    &&& best(items.drop_last(), capacity).below(
        best(items.drop_last(), capacity - weight).sum(value),
    )
}

/// Which of `items` are selected for `capacity`: one flag for each item. A
/// selected item uses up its weight for the items before it.
pub open spec fn picks<A: Amount>(
    items: Seq<(i64, A, String, String)>,
    capacity: int,
) -> Seq<bool>
    decreases items.len(),
{
    if items.len() == 0 {
        seq![]
    } else if takes_last(items, capacity) {
        picks(items.drop_last(), capacity - items.last().0).push(true)
    } else {
        picks(items.drop_last(), capacity).push(false)
    }
}

/// The elements of `items` whose flag is `wanted`, in their order.
pub open spec fn flagged<T>(items: Seq<T>, flags: Seq<bool>, wanted: bool) -> Seq<T>
    decreases items.len(),
{
    if items.len() == 0 {
        seq![]
    } else if flags[items.len() - 1] == wanted {
        flagged(items.drop_last(), flags, wanted).push(items.last())
    } else {
        flagged(items.drop_last(), flags, wanted)
    }
}

/// [`flagged`] reads no flag beyond the last element.
proof fn lemma_flagged_prefix<T>(items: Seq<T>, flags: Seq<bool>, more: bool, wanted: bool)
    requires
        items.len() <= flags.len(),
    ensures
        flagged(items, flags.push(more), wanted) == flagged(items, flags, wanted),
    decreases items.len(),
{
    if items.len() > 0 {
        lemma_flagged_prefix(items.drop_last(), flags, more, wanted);
    }
}

/// There is one flag for each item.
proof fn lemma_picks_len<A: Amount>(items: Seq<(i64, A, String, String)>, capacity: int)
    ensures
        picks(items, capacity).len() == items.len(),
    decreases items.len(),
{
    if items.len() > 0 {
        if takes_last(items, capacity) {
            lemma_picks_len(items.drop_last(), capacity - items.last().0);
        } else {
            lemma_picks_len(items.drop_last(), capacity);
        }
    }
}

/// The selection from `items`, seen from its last item.
proof fn lemma_flagged_picks_step<A: Amount>(
    items: Seq<(i64, A, String, String)>,
    capacity: int,
    wanted: bool,
)
    requires
        items.len() > 0,
    ensures
        flagged(items, picks(items, capacity), wanted) == ({
            let taken = takes_last(items, capacity);
            let left = if taken { capacity - items.last().0 } else { capacity };
            let before = flagged(items.drop_last(), picks(items.drop_last(), left), wanted);
            if taken == wanted {
                before.push(items.last())
            } else {
                before
            }
        }),
{
    let taken = takes_last(items, capacity);
    let left = if taken { capacity - items.last().0 } else { capacity };
    lemma_picks_len(items.drop_last(), left);
    lemma_flagged_prefix(items.drop_last(), picks(items.drop_last(), left), taken, wanted);
}

/// The elements of `reversed`, last one first.
fn turned<T>(reversed: Vec<T>) -> (r: Vec<T>)
    ensures
        r@ == reversed@.reverse(),
{
    let mut rest = reversed;
    let mut out: Vec<T> = Vec::new();
    while rest.len() > 0
        invariant
            reversed@.reverse() == out@ + rest@.reverse(),
        decreases rest.len(),
    {
        let ghost before = rest@;
        let ghost done = out@;
        if let Some(last) = rest.pop() {
            out.push(last);
            assert(done + before.reverse() =~= out@ + rest@.reverse());
        }
    }
    assert(out@ =~= out@ + rest@.reverse());
    out
}

/// Splits `items`, each a weight, a value and two labels, into those that make up
/// the most valuable selection whose weights add up to at most `max_weight`, and
/// the others. Both keep the order of `items`.
///
/// An item with a negative weight is never selected. Memory for every item at every
/// weight up to `max_weight` is needed.
pub fn knapsack<A: Amount>(items: Vec<(i64, A, String, String)>, max_weight: i64) -> (r: (
    Vec<(i64, A, String, String)>,
    Vec<(i64, A, String, String)>,
))
    requires
        0 <= max_weight < usize::MAX,
    ensures
        r.0@ == flagged(items@, picks(items@, max_weight as int), true),
        r.1@ == flagged(items@, picks(items@, max_weight as int), false),
        total_weight(r.0@) <= max_weight,
        r.0@.to_multiset().add(r.1@.to_multiset()) == items@.to_multiset(),
{
    let n: usize = items.len();
    let w_max: usize = max_weight as usize;
    let ghost all = items@;

    // dp[w] is the best value for capacity w among the items seen so far.
    let mut dp: Vec<A> = Vec::new();
    while dp.len() <= w_max
        invariant
            w_max < usize::MAX,
            dp.len() <= w_max + 1,
            forall|w: int| 0 <= w < dp.len() ==> dp[w] == A::whole(0),
        decreases w_max + 1 - dp.len(),
    {
        dp.push(A::from_int(0));
    }

    // choice[i][w] says whether item i is taken when capacity w is left for it.
    let mut choice: Vec<Vec<bool>> = Vec::new();
    assert(all.take(0).len() == 0);
    let mut i: usize = 0;
    while i < n
        invariant
            i <= n,
            n == items.len(),
            items@ == all,
            w_max == max_weight,
            w_max < usize::MAX,
            dp.len() == w_max + 1,
            forall|w: int| 0 <= w <= w_max ==> dp[w] == #[trigger] best(all.take(i as int), w),
            choice.len() == i,
            forall|j: int| 0 <= j < i ==> #[trigger] choice[j].len() == w_max + 1,
            forall|j: int, w: int|
                0 <= j < i && 0 <= w <= w_max ==> #[trigger] choice[j][w] == takes_last(
                    all.take(j + 1),
                    w,
                ),
        decreases n - i,
    {
        let ghost seen = all.take(i as int);
        let ghost next = all.take(i + 1);
        assert(next.drop_last() =~= seen);
        assert(next.last() == all[i as int]);
        let mut row: Vec<bool> = vec![false; w_max + 1];
        let weight: i64 = items[i].0;
        let value: A = items[i].1;
        if 0 <= weight && weight <= max_weight {
            let step: usize = weight as usize;
            let mut w: usize = w_max + 1;
            while w > step
                invariant
                    step <= w <= w_max + 1,
                    step == weight,
                    w_max < usize::MAX,
                    dp.len() == w_max + 1,
                    row.len() == w_max + 1,
                    next.len() > 0,
                    next.drop_last() == seen,
                    next.last().0 == weight,
                    next.last().1 == value,
                    forall|k: int| 0 <= k < w ==> dp[k] == #[trigger] best(seen, k),
                    forall|k: int| w <= k <= w_max ==> dp[k] == #[trigger] best(next, k),
                    forall|k: int| 0 <= k < w ==> !row[k],
                    forall|k: int|
                        w <= k <= w_max ==> #[trigger] row[k] == takes_last(next, k),
                decreases w,
            {
                w = w - 1;
                let new_val: A = dp[w - step].plus(value);
                assert(dp[w as int] == best(seen, w as int));
                assert(dp[w - step] == best(seen, w - step));
                if dp[w].less_than(new_val) {
                    dp.set(w, new_val);
                    row.set(w, true);
                }
                assert(dp[w as int] == best(next, w as int));
            }
            assert forall|k: int| 0 <= k <= w_max implies dp[k] == #[trigger] best(next, k) by {
                if k < step {
                    assert(dp[k] == best(seen, k));
                }
            }
        } else {
            assert forall|k: int| 0 <= k <= w_max implies dp[k] == #[trigger] best(next, k) by {
                assert(dp[k] == best(seen, k));
            }
        }
        assert(forall|k: int| 0 <= k <= w_max ==> #[trigger] row[k] == takes_last(next, k));
        choice.push(row);
        i = i + 1;
    }

    // Walk back from the last item, giving each the capacity that is left.
    let mut items = items;
    let mut selected: Vec<(i64, A, String, String)> = Vec::new();
    let mut unselected: Vec<(i64, A, String, String)> = Vec::new();
    let mut w: usize = w_max;
    assert(all.take(n as int) =~= all);
    while items.len() > 0
        invariant
            n == all.len(),
            items.len() <= n,
            items@ == all.take(items.len() as int),
            w <= w_max,
            choice.len() == n,
            forall|j: int| 0 <= j < n ==> #[trigger] choice[j].len() == w_max + 1,
            forall|j: int, w: int|
                0 <= j < n && 0 <= w <= w_max ==> #[trigger] choice[j][w] == takes_last(
                    all.take(j + 1),
                    w,
                ),
            flagged(all, picks(all, w_max as int), true) == flagged(
                items@,
                picks(items@, w as int),
                true,
            ) + selected@.reverse(),
            flagged(all, picks(all, w_max as int), false) == flagged(
                items@,
                picks(items@, w as int),
                false,
            ) + unselected@.reverse(),
        decreases items.len(),
    {
        let k: usize = items.len() - 1;
        let ghost current = items@;
        let ghost capacity = w as int;
        let ghost chosen = selected@;
        let ghost others = unselected@;
        assert(all.take(k + 1) == current);
        assert(current.drop_last() =~= all.take(k as int));
        proof {
            lemma_flagged_picks_step(current, capacity, true);
            lemma_flagged_picks_step(current, capacity, false);
        }
        if let Some(item) = items.pop() {
            assert(items@ =~= current.drop_last());
            let ghost last = current.last();
            assert(choice[k as int].len() == w_max + 1);
            let taken: bool = choice[k][w];
            assert(taken == takes_last(current, capacity));
            if taken {
                w = w - item.0 as usize;
                selected.push(item);
                assert(flagged(items@, picks(items@, w as int), true).push(last)
                    + chosen.reverse() =~= flagged(items@, picks(items@, w as int), true)
                    + selected@.reverse());
            } else {
                unselected.push(item);
                assert(flagged(items@, picks(items@, w as int), false).push(last)
                    + others.reverse() =~= flagged(items@, picks(items@, w as int), false)
                    + unselected@.reverse());
            }
        }
    }
    assert(selected@.reverse() =~= flagged(items@, picks(items@, w as int), true)
        + selected@.reverse());
    assert(unselected@.reverse() =~= flagged(items@, picks(items@, w as int), false)
        + unselected@.reverse());
    proof {
        selection_is_affordable(all, max_weight as int);
        split_keeps_every_item(all, picks(all, max_weight as int));
    }
    (turned(selected), turned(unselected))
}

/// What `items` weigh together.
pub open spec fn total_weight<A: Amount>(items: Seq<(i64, A, String, String)>) -> int
    decreases items.len(),
{
    if items.len() == 0 {
        0
    } else {
        total_weight(items.drop_last()) + items.last().0
    }
}

/// What `items` are worth together, added up in their order.
pub open spec fn total_value<A: Amount>(items: Seq<(i64, A, String, String)>) -> A
    decreases items.len(),
{
    if items.len() == 0 {
        A::whole(0)
    } else {
        total_value(items.drop_last()).sum(items.last().1)
    }
}

/// Whether `flags` selects among `items`, without negative weights, what
/// `capacity` covers.
pub open spec fn affordable<A: Amount>(
    items: Seq<(i64, A, String, String)>,
    flags: Seq<bool>,
    capacity: int,
) -> bool {
    &&& flags.len() == items.len()
    &&& forall|i: int| 0 <= i < items.len() && flags[i] ==> 0 <= #[trigger] items[i].0
    &&& total_weight(flagged(items, flags, true)) <= capacity
}

/// What is selected, seen from the last item.
proof fn lemma_flagged_step<T>(items: Seq<T>, flags: Seq<bool>, wanted: bool)
    requires
        items.len() > 0,
        flags.len() == items.len(),
    ensures
        flagged(items, flags, wanted) == ({
            let before = flagged(items.drop_last(), flags.drop_last(), wanted);
            if flags.last() == wanted {
                before.push(items.last())
            } else {
                before
            }
        }),
{
    assert(flags =~= flags.drop_last().push(flags.last()));
    lemma_flagged_prefix(items.drop_last(), flags.drop_last(), flags.last(), wanted);
}

/// The totals of a selection that takes the last item.
proof fn lemma_totals_of_push<A: Amount>(
    chosen: Seq<(i64, A, String, String)>,
    item: (i64, A, String, String),
)
    ensures
        total_weight(chosen.push(item)) == total_weight(chosen) + item.0,
        total_value(chosen.push(item)) == total_value(chosen).sum(item.1),
{
    assert(chosen.push(item).drop_last() =~= chosen);
}

/// Dropping the last item of an affordable selection leaves one that is affordable
/// without it.
proof fn lemma_affordable_without_last<A: Amount>(
    items: Seq<(i64, A, String, String)>,
    flags: Seq<bool>,
    capacity: int,
)
    requires
        items.len() > 0,
        affordable(items, flags, capacity),
    ensures
        flags.last() ==> 0 <= items.last().0 && affordable(
            items.drop_last(),
            flags.drop_last(),
            capacity - items.last().0,
        ),
        !flags.last() ==> affordable(items.drop_last(), flags.drop_last(), capacity),
{
    let rest = items.drop_last();
    let fewer = flags.drop_last();
    lemma_flagged_step(items, flags, true);
    lemma_totals_of_push(flagged(rest, fewer, true), items.last());
    assert(items.last() == items[items.len() - 1]);
    assert forall|i: int| 0 <= i < rest.len() && fewer[i] implies 0 <= #[trigger] rest[i].0 by {
        assert(flags[i] && rest[i] == items[i]);
    }
}

/// Adding the last item to an affordable selection gives one that is affordable with
/// it.
proof fn lemma_affordable_with_last<A: Amount>(
    items: Seq<(i64, A, String, String)>,
    fewer: Seq<bool>,
    taken: bool,
    capacity: int,
)
    requires
        items.len() > 0,
        affordable(items.drop_last(), fewer, if taken { capacity - items.last().0 } else { capacity }),
        taken ==> 0 <= items.last().0,
    ensures
        affordable(items, fewer.push(taken), capacity),
        total_value(flagged(items, fewer.push(taken), true)) == if taken {
            total_value(flagged(items.drop_last(), fewer, true)).sum(items.last().1)
        } else {
            total_value(flagged(items.drop_last(), fewer, true))
        },
{
    let rest = items.drop_last();
    let flags = fewer.push(taken);
    assert(flags.drop_last() =~= fewer);
    lemma_flagged_step(items, flags, true);
    lemma_totals_of_push(flagged(rest, fewer, true), items.last());
    assert forall|i: int| 0 <= i < items.len() && flags[i] implies 0 <= #[trigger] items[i].0 by {
        if i < rest.len() {
            assert(fewer[i] && rest[i] == items[i]);
        }
    }
}

/// Nothing is lost and nothing is added: the two parts of the split together are
/// the items.
pub proof fn split_keeps_every_item<T>(items: Seq<T>, flags: Seq<bool>)
    ensures
        flagged(items, flags, true).to_multiset().add(flagged(items, flags, false).to_multiset())
            == items.to_multiset(),
    decreases items.len(),
{
    broadcast use vstd::seq_lib::group_to_multiset_ensures;

    if items.len() > 0 {
        split_keeps_every_item(items.drop_last(), flags);
        let rest = items.drop_last();
        let yes = flagged(rest, flags, true);
        let no = flagged(rest, flags, false);
        assert(items =~= rest.push(items.last()));
        assert(items.to_multiset() =~= rest.to_multiset().insert(items.last()));
        if flags[items.len() - 1] {
            assert(yes.push(items.last()).to_multiset().add(no.to_multiset())
                =~= yes.to_multiset().add(no.to_multiset()).insert(items.last()));
        } else {
            assert(yes.to_multiset().add(no.push(items.last()).to_multiset())
                =~= yes.to_multiset().add(no.to_multiset()).insert(items.last()));
        }
    } else {
        assert(flagged(items, flags, true).to_multiset().add(
            flagged(items, flags, false).to_multiset(),
        ) =~= items.to_multiset());
    }
}

/// The budget holds: the selection has no negative weight and weighs at most
/// `capacity`.
pub proof fn selection_is_affordable<A: Amount>(
    items: Seq<(i64, A, String, String)>,
    capacity: int,
)
    requires
        0 <= capacity,
    ensures
        affordable(items, picks(items, capacity), capacity),
    decreases items.len(),
{
    if items.len() > 0 {
        let rest = items.drop_last();
        let taken = takes_last(items, capacity);
        let left = if taken { capacity - items.last().0 } else { capacity };
        selection_is_affordable(rest, left);
        let before = picks(rest, left);
        lemma_flagged_picks_step(items, capacity, true);
        let chosen = flagged(rest, before, true);
        assert(chosen.push(items.last()).drop_last() =~= chosen);
        assert forall|i: int| 0 <= i < items.len() && picks(items, capacity)[i] implies 0
            <= #[trigger] items[i].0 by {
            if i < rest.len() {
                assert(before[i]);
                assert(rest[i] == items[i]);
            }
        }
    }
}

/// The selection is worth what [`best`] promises.
pub proof fn selection_is_worth_the_best<A: Amount>(
    items: Seq<(i64, A, String, String)>,
    capacity: int,
)
    ensures
        total_value(flagged(items, picks(items, capacity), true)) == best(items, capacity),
    decreases items.len(),
{
    if items.len() > 0 {
        let rest = items.drop_last();
        let taken = takes_last(items, capacity);
        let left = if taken { capacity - items.last().0 } else { capacity };
        selection_is_worth_the_best(rest, left);
        lemma_flagged_picks_step(items, capacity, true);
        let chosen = flagged(rest, picks(rest, left), true);
        assert(chosen.push(items.last()).drop_last() =~= chosen);
    }
}

/// Whether selections from `items` can be compared by what they are worth: the amounts
/// that satisfy `domain` are totally ordered and adding keeps their order, and what
/// `capacity` covers of the first few items is always worth such an amount.
pub open spec fn comparable<A: Amount>(
    domain: spec_fn(A) -> bool,
    items: Seq<(i64, A, String, String)>,
    capacity: int,
) -> bool {
    &&& totally_ordered(domain)
    &&& adding_keeps_order(domain)
    &&& forall|n: int, flags: Seq<bool>|
        0 <= n <= items.len() && #[trigger] affordable(items.take(n), flags, capacity) ==> domain(
            total_value(flagged(items.take(n), flags, true)),
        )
}

/// Selections of whole units can always be compared.
pub proof fn whole_units_are_comparable(items: Seq<(i64, i64, String, String)>, capacity: int)
    ensures
        comparable(|a: i64| true, items, capacity),
{
    whole_units_can_be_ranked_and_added();
}

/// No affordable selection of the first `n` items is worth more than [`best`] says.
proof fn lemma_best_is_an_upper_bound<A: Amount>(
    domain: spec_fn(A) -> bool,
    items: Seq<(i64, A, String, String)>,
    limit: int,
    n: int,
    flags: Seq<bool>,
    capacity: int,
)
    requires
        comparable(domain, items, limit),
        0 <= n <= items.len(),
        capacity <= limit,
        affordable(items.take(n), flags, capacity),
    ensures
        !best(items.take(n), capacity).below(total_value(flagged(items.take(n), flags, true))),
    decreases n,
{
    let seen = items.take(n);
    lemma_weight_is_not_negative(seen, flags, capacity);
    selection_is_affordable(seen, capacity);
    selection_is_worth_the_best(seen, capacity);
    assert(affordable(seen, flags, limit));
    assert(affordable(seen, picks(seen, capacity), limit));
    if n > 0 {
        let rest = items.take(n - 1);
        assert(seen.drop_last() =~= rest);
        let (weight, value, _, _) = seen.last();
        let fewer = flags.drop_last();
        assert(flags =~= fewer.push(flags.last()));
        lemma_affordable_without_last(seen, flags, capacity);
        let left = if flags.last() { capacity - weight } else { capacity };
        lemma_best_is_an_upper_bound(domain, items, limit, n - 1, fewer, left);
        lemma_affordable_with_last(seen, fewer, flags.last(), capacity);
        let other = total_value(flagged(rest, fewer, true));

        // The best without the last item, and the best with it where it fits.
        let without = best(rest, capacity);
        selection_is_affordable(rest, capacity);
        selection_is_worth_the_best(rest, capacity);
        assert(affordable(rest, picks(rest, capacity), limit));
        assert(domain(without));
        let with = best(rest, capacity - weight).sum(value);
        if 0 <= weight <= capacity {
            selection_is_affordable(rest, capacity - weight);
            selection_is_worth_the_best(rest, capacity - weight);
            let chosen = picks(rest, capacity - weight);
            lemma_affordable_with_last(seen, chosen, true, capacity);
            assert(affordable(rest, chosen, limit));
            assert(affordable(seen, chosen.push(true), limit));
            assert(domain(best(rest, capacity - weight)) && domain(with));
        }
        assert(affordable(rest, fewer, limit));
        assert(domain(other));
        if flags.last() {
            lemma_weight_is_not_negative(rest, fewer, left);
            assert(domain(other.sum(value)));
            assert(!with.below(other.sum(value)));
            if !without.below(with) {
                assert(!without.below(other.sum(value)));
            }
        } else if 0 <= weight <= capacity && without.below(with) {
            assert(!with.below(without));
            assert(!with.below(other));
        }
    }
}

/// An affordable selection weighs no less than nothing, so nothing is affordable with
/// less.
proof fn lemma_weight_is_not_negative<A: Amount>(
    items: Seq<(i64, A, String, String)>,
    flags: Seq<bool>,
    capacity: int,
)
    requires
        affordable(items, flags, capacity),
    ensures
        0 <= total_weight(flagged(items, flags, true)),
        0 <= capacity,
    decreases items.len(),
{
    if items.len() > 0 {
        let rest = items.drop_last();
        let fewer = flags.drop_last();
        let left = if flags.last() { capacity - items.last().0 } else { capacity };
        lemma_affordable_without_last(items, flags, capacity);
        lemma_weight_is_not_negative(rest, fewer, left);
        lemma_flagged_step(items, flags, true);
        lemma_totals_of_push(flagged(rest, fewer, true), items.last());
    }
}

/// The selection is the most valuable one: where selections can be compared by what
/// they are worth, no affordable selection of the same items is worth more.
pub proof fn selection_is_optimal<A: Amount>(
    domain: spec_fn(A) -> bool,
    items: Seq<(i64, A, String, String)>,
    other: Seq<bool>,
    capacity: int,
)
    requires
        comparable(domain, items, capacity),
        affordable(items, other, capacity),
    ensures
        !total_value(flagged(items, picks(items, capacity), true)).below(
            total_value(flagged(items, other, true)),
        ),
{
    let n = items.len() as int;
    assert(items.take(n) =~= items);
    selection_is_worth_the_best(items, capacity);
    lemma_best_is_an_upper_bound(domain, items, capacity, n, other, capacity);
}

/// Every selected item counts: where selections can be compared by what they are worth
/// and losses gain nothing, an item that is worth nothing or less is never selected.
pub proof fn selected_items_are_worth_something<A: Amount>(
    domain: spec_fn(A) -> bool,
    items: Seq<(i64, A, String, String)>,
    capacity: int,
)
    requires
        0 <= capacity,
        comparable(domain, items, capacity),
        losses_gain_nothing(domain),
    ensures
        forall|k: int|
            0 <= k < flagged(items, picks(items, capacity), true).len() ==> A::whole(0).below(
                (#[trigger] flagged(items, picks(items, capacity), true)[k]).1,
            ),
{
    let n = items.len() as int;
    assert(items.take(n) =~= items);
    lemma_selected_are_worth_something(domain, items, capacity, n, capacity);
}

/// Every item that is selected from the first `n` is worth something.
proof fn lemma_selected_are_worth_something<A: Amount>(
    domain: spec_fn(A) -> bool,
    items: Seq<(i64, A, String, String)>,
    limit: int,
    n: int,
    capacity: int,
)
    requires
        comparable(domain, items, limit),
        losses_gain_nothing(domain),
        0 <= n <= items.len(),
        0 <= capacity <= limit,
    ensures
        ({
            let seen = items.take(n);
            forall|k: int|
                0 <= k < flagged(seen, picks(seen, capacity), true).len() ==> A::whole(0).below(
                    (#[trigger] flagged(seen, picks(seen, capacity), true)[k]).1,
                )
        }),
    decreases n,
{
    if n > 0 {
        let seen = items.take(n);
        let rest = items.take(n - 1);
        assert(seen.drop_last() =~= rest);
        let (weight, value, _, _) = seen.last();
        let taken = takes_last(seen, capacity);
        let left = if taken { capacity - weight } else { capacity };
        lemma_selected_are_worth_something(domain, items, limit, n - 1, left);
        lemma_flagged_picks_step(seen, capacity, true);
        if taken {
            let part = best(rest, left);
            let chosen = picks(rest, left);
            selection_is_affordable(rest, left);
            selection_is_worth_the_best(rest, left);
            assert(affordable(rest, chosen, capacity));
            lemma_best_is_an_upper_bound(domain, items, limit, n - 1, chosen, capacity);
            lemma_affordable_with_last(seen, chosen, true, capacity);
            assert(affordable(rest, chosen, limit));
            assert(affordable(seen, chosen.push(true), limit));
            assert(domain(part) && domain(part.sum(value)));

            // More capacity never makes the best value less.
            let without = best(rest, capacity);
            selection_is_affordable(rest, capacity);
            selection_is_worth_the_best(rest, capacity);
            assert(affordable(rest, picks(rest, capacity), limit));
            assert(domain(without) && !without.below(part));
            if !A::whole(0).below(value) {
                assert(!part.below(part.sum(value)));
                assert(!without.below(part.sum(value)));
            }
        }
    }
}

/// In whole units an item that is worth nothing or less is never selected.
pub proof fn selected_items_add_value(items: Seq<(i64, i64, String, String)>, capacity: int)
    requires
        0 <= capacity,
    ensures
        forall|k: int|
            0 <= k < flagged(items, picks(items, capacity), true).len() ==> 0 < (#[trigger] flagged(
                items,
                picks(items, capacity),
                true,
            )[k]).1,
{
    whole_units_can_be_ranked_and_added();
    whole_units_are_comparable(items, capacity);
    selected_items_are_worth_something(|a: i64| true, items, capacity);
    let selected = flagged(items, picks(items, capacity), true);
    assert forall|k: int| 0 <= k < selected.len() implies 0 < (#[trigger] selected[k]).1 by {
        assert(i64::whole(0).below(selected[k].1));
    }
}

/// Where the last item is selected, every affordable selection without it is worth less:
/// of selections that are worth the same, one without the last item wins.
pub proof fn last_item_is_selected_only_for_gain<A: Amount>(
    domain: spec_fn(A) -> bool,
    items: Seq<(i64, A, String, String)>,
    other: Seq<bool>,
    capacity: int,
)
    requires
        comparable(domain, items, capacity),
        items.len() > 0,
        affordable(items, other, capacity),
        !other.last(),
        picks(items, capacity).last(),
    ensures
        total_value(flagged(items, other, true)).below(
            total_value(flagged(items, picks(items, capacity), true)),
        ),
{
    let n = items.len() as int;
    let rest = items.drop_last();
    assert(items.take(n) =~= items);
    assert(items.take(n - 1) =~= rest);
    lemma_affordable_without_last(items, other, capacity);
    lemma_flagged_step(items, other, true);
    lemma_best_is_an_upper_bound(domain, items, capacity, n - 1, other.drop_last(), capacity);
    lemma_weight_is_not_negative(items, other, capacity);
    selection_is_affordable(items, capacity);
    selection_is_worth_the_best(items, capacity);
    selection_is_affordable(rest, capacity);
    selection_is_worth_the_best(rest, capacity);
    let without = best(rest, capacity);
    let with = best(items, capacity);
    let value = total_value(flagged(items, other, true));
    assert(affordable(items.take(n), picks(items, capacity), capacity));
    assert(affordable(items.take(n), other, capacity));
    assert(affordable(items.take(n - 1), picks(rest, capacity), capacity));
    assert(domain(without) && domain(with) && domain(value));
    assert(without.below(with) && !without.below(value));
}

/// The items before the last are selected as if they were all there is, with the capacity
/// that the last leaves them: all of it where it is not selected, and otherwise what its
/// weight leaves. There is one flag for each item.
pub proof fn earlier_items_are_selected_by_themselves<A: Amount>(
    items: Seq<(i64, A, String, String)>,
    capacity: int,
)
    requires
        items.len() > 0,
    ensures
        picks(items, capacity).len() == items.len(),
        picks(items, capacity).drop_last() == picks(
            items.drop_last(),
            if picks(items, capacity).last() {
                capacity - items.last().0
            } else {
                capacity
            },
        ),
{
    lemma_picks_len(items, capacity);
    let before = picks(items.drop_last(), capacity);
    assert(before.push(false).drop_last() =~= before);
    let with = picks(items.drop_last(), capacity - items.last().0);
    assert(with.push(true).drop_last() =~= with);
}

/// Splitting by flags keeps the order: one more element comes last in the part that its
/// flag names, and the other part stays as it is.
pub proof fn split_keeps_the_order<T>(items: Seq<T>, flags: Seq<bool>, more: T, flag: bool)
    requires
        flags.len() == items.len(),
    ensures
        flagged(items.push(more), flags.push(flag), flag) == flagged(items, flags, flag).push(more),
        flagged(items.push(more), flags.push(flag), !flag) == flagged(items, flags, !flag),
        items.len() == 0 ==> flagged(items, flags, flag).len() == 0,
{
    lemma_flagged_step(items.push(more), flags.push(flag), flag);
    lemma_flagged_step(items.push(more), flags.push(flag), !flag);
    assert(items.push(more).drop_last() =~= items);
    assert(flags.push(flag).drop_last() =~= flags);
}

/// What those of the first `n` items weigh that `flags` selects, added up as integers.
pub open spec fn selected_weight(
    items: Seq<(i64, i64, String, String)>,
    flags: Seq<bool>,
    n: int,
) -> int
    decreases n,
{
    if n <= 0 {
        0
    } else {
        selected_weight(items, flags, n - 1) + if flags[n - 1] { items[n - 1].0 as int } else { 0 }
    }
}

/// What those of the first `n` items are worth that `flags` selects, added up as integers.
pub open spec fn selected_worth(
    items: Seq<(i64, i64, String, String)>,
    flags: Seq<bool>,
    n: int,
) -> int
    decreases n,
{
    if n <= 0 {
        0
    } else {
        selected_worth(items, flags, n - 1) + if flags[n - 1] { items[n - 1].1 as int } else { 0 }
    }
}

proof fn lemma_exact_totals(items: Seq<(i64, i64, String, String)>, flags: Seq<bool>, n: int)
    requires
        flags.len() == items.len(),
        0 <= n <= items.len(),
        forall|k: int|
            0 <= k <= items.len() ==> i64::MIN <= #[trigger] selected_worth(items, flags, k)
                <= i64::MAX,
    ensures
        total_weight(flagged(items.take(n), flags.take(n), true)) == selected_weight(
            items,
            flags,
            n,
        ),
        total_value(flagged(items.take(n), flags.take(n), true)) == selected_worth(items, flags, n),
    decreases n,
{
    if n > 0 {
        lemma_exact_totals(items, flags, n - 1);
        assert(items.take(n).drop_last() =~= items.take(n - 1));
        assert(flags.take(n).drop_last() =~= flags.take(n - 1));
        lemma_flagged_step(items.take(n), flags.take(n), true);
        lemma_totals_of_push(
            flagged(items.take(n - 1), flags.take(n - 1), true),
            items.take(n).last(),
        );
        assert(i64::MIN <= selected_worth(items, flags, n) <= i64::MAX);
    }
}

proof fn lemma_worth_of_flagged(items: Seq<(i64, i64, String, String)>, flags: Seq<bool>)
    requires
        flags.len() == items.len(),
    ensures
        ({
            let chosen = flagged(items, flags, true);
            selected_worth(chosen, Seq::new(chosen.len(), |i: int| true), chosen.len() as int)
                == selected_worth(items, flags, items.len() as int)
        }),
    decreases items.len(),
{
    if items.len() > 0 {
        let n = items.len() as int;
        let rest = items.drop_last();
        let fewer = flags.drop_last();
        lemma_worth_of_flagged(rest, fewer);
        lemma_flagged_step(items, flags, true);
        assert(rest.take(n - 1) =~= items.take(n - 1) && fewer.take(n - 1) =~= flags.take(n - 1));
        lemma_worth_of_prefix(items, flags, rest, fewer, n - 1);
        let before = flagged(rest, fewer, true);
        let chosen = flagged(items, flags, true);
        if flags.last() {
            let m = before.len() as int;
            let all = Seq::new(chosen.len(), |i: int| true);
            let all_before = Seq::new(before.len(), |i: int| true);
            assert(before.take(m) =~= chosen.take(m) && all_before.take(m) =~= all.take(m));
            lemma_worth_of_prefix(chosen, all, before, all_before, m);
        }
    }
}

proof fn lemma_worth_of_prefix(
    items: Seq<(i64, i64, String, String)>,
    flags: Seq<bool>,
    fewer: Seq<(i64, i64, String, String)>,
    fewer_flags: Seq<bool>,
    n: int,
)
    requires
        0 <= n <= fewer.len() <= items.len(),
        flags.len() == items.len(),
        fewer_flags.len() == fewer.len(),
        fewer.take(n) == items.take(n),
        fewer_flags.take(n) == flags.take(n),
    ensures
        selected_worth(items, flags, n) == selected_worth(fewer, fewer_flags, n),
    decreases n,
{
    if n > 0 {
        assert(fewer.take(n - 1) =~= fewer.take(n).take(n - 1));
        assert(items.take(n - 1) =~= items.take(n).take(n - 1));
        assert(fewer_flags.take(n - 1) =~= fewer_flags.take(n).take(n - 1));
        assert(flags.take(n - 1) =~= flags.take(n).take(n - 1));
        lemma_worth_of_prefix(items, flags, fewer, fewer_flags, n - 1);
        assert(fewer.take(n)[n - 1] == fewer[n - 1] && items.take(n)[n - 1] == items[n - 1]);
        assert(fewer_flags.take(n)[n - 1] == fewer_flags[n - 1] && flags.take(n)[n - 1] == flags[n
            - 1]);
    }
}

/// In whole units, as long as no selection is worth more or less than `i64` holds, no
/// selection without negative weights that the budget covers is worth more than what is
/// selected.
pub proof fn no_covered_selection_is_worth_more(
    items: Vec<(i64, i64, String, String)>,
    max_weight: i64,
    r: (Vec<(i64, i64, String, String)>, Vec<(i64, i64, String, String)>),
    other: Seq<bool>,
)
    requires
        call_ensures(knapsack::<i64>, (items, max_weight), r),
        0 <= max_weight,
        forall|flags: Seq<bool>, k: int|
            flags.len() == items@.len() && 0 <= k <= items@.len() ==> i64::MIN
                <= #[trigger] selected_worth(items@, flags, k) <= i64::MAX,
        other.len() == items@.len(),
        forall|i: int| 0 <= i < items@.len() && other[i] ==> 0 <= (#[trigger] items@[i]).0,
        selected_weight(items@, other, items@.len() as int) <= max_weight,
    ensures
        selected_worth(items@, other, items@.len() as int) <= selected_worth(
            r.0@,
            Seq::new(r.0@.len(), |i: int| true),
            r.0@.len() as int,
        ),
{
    let all = items@;
    let n = all.len() as int;
    let chosen = picks(all, max_weight as int);
    lemma_picks_len(all, max_weight as int);
    assert(all.take(n) =~= all && other.take(n) =~= other && chosen.take(n) =~= chosen);
    lemma_exact_totals(all, other, n);
    lemma_exact_totals(all, chosen, n);
    whole_units_are_comparable(all, max_weight as int);
    selection_is_optimal(|a: i64| true, all, other, max_weight as int);
    lemma_worth_of_flagged(all, chosen);
}

/// What is selected fits into the budget, has no negative weight, and together with what
/// is not selected makes up all items.
pub proof fn selected_items_fit_the_budget<A: Amount>(
    items: Vec<(i64, A, String, String)>,
    max_weight: i64,
    r: (Vec<(i64, A, String, String)>, Vec<(i64, A, String, String)>),
)
    requires
        call_ensures(knapsack::<A>, (items, max_weight), r),
        0 <= max_weight,
    ensures
        total_weight(r.0@) <= max_weight,
        forall|i: int| 0 <= i < r.0@.len() ==> 0 <= (#[trigger] r.0@[i]).0 <= max_weight,
        r.0@.len() + r.1@.len() == items@.len(),
        r.0@.to_multiset().add(r.1@.to_multiset()) == items@.to_multiset(),
        r.0@ == flagged(items@, picks(items@, max_weight as int), true),
        r.1@ == flagged(items@, picks(items@, max_weight as int), false),
{
    lemma_selected_fit(items@, max_weight as int);
}

proof fn lemma_selected_fit<A: Amount>(items: Seq<(i64, A, String, String)>, capacity: int)
    requires
        0 <= capacity,
    ensures
        ({
            let yes = flagged(items, picks(items, capacity), true);
            let no = flagged(items, picks(items, capacity), false);
            &&& forall|i: int| 0 <= i < yes.len() ==> 0 <= (#[trigger] yes[i]).0 <= capacity
            &&& yes.len() + no.len() == items.len()
        }),
    decreases items.len(),
{
    if items.len() > 0 {
        let left = if takes_last(items, capacity) {
            capacity - items.last().0
        } else {
            capacity
        };
        lemma_selected_fit(items.drop_last(), left);
        lemma_flagged_picks_step(items, capacity, true);
        lemma_flagged_picks_step(items, capacity, false);
    }
}

/// Weights and values add up item by item.
pub proof fn totals_add_up<A: Amount>(
    items: Seq<(i64, A, String, String)>,
    more: (i64, A, String, String),
)
    ensures
        total_weight(items.push(more)) == total_weight(items) + more.0,
        total_value(items.push(more)) == total_value(items).sum(more.1),
        items.len() == 0 ==> total_weight(items) == 0 && total_value(items) == A::whole(0),
{
    lemma_totals_of_push(items, more);
}

} // verus!
