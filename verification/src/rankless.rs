//! Mods with few ranks, which can be traded as if they had no rank at all.

use vstd::prelude::*;

use crate::amount::Amount;
use crate::average::{
    exact_sum, exact_weight, finite_or_zero, highest, highest_price, lemma_mean_times_weights,
    lowest, lowest_price, sums_fit, total_volume, volume_sum, weighted_average, weighted_mean,
};
use crate::model::{
    no_price, plain_sub_type, CacheTradableItem, ItemPriceInfo, ItemPriceView, OrderList, Settings,
    SubType, SubTypeView,
};
use crate::text::{
    ascii_lower, contains_text, joined, same_but_for_ascii_case, same_text, view_of, views,
};

verus! {

/// The tag of a mod.
const MOD_TAG: &'static str = "mod";

/// The other tag of a mod.
const MODS_TAG: &'static str = "mods";

/// The highest rank of `item`: its own, or else that of its sub types.
pub open spec fn max_rank_of(item: CacheTradableItem) -> Option<i64> {
    match item.max_rank {
        Some(rank) => Some(rank),
        None => match item.sub_type {
            Some(sub_type) => sub_type.max_rank,
            None => None,
        },
    }
}

/// Computes [`max_rank_of`].
pub fn max_rank(item: &CacheTradableItem) -> (r: Option<i64>)
    ensures
        r == max_rank_of(*item),
{
    match item.max_rank {
        Some(rank) => Some(rank),
        None => match &item.sub_type {
            Some(sub_type) => sub_type.max_rank,
            None => None,
        },
    }
}

/// Whether `tag` marks a mod.
pub open spec fn is_mod_tag(tag: Seq<char>) -> bool {
    same_but_for_ascii_case(tag, "mod"@) || same_but_for_ascii_case(tag, "mods"@)
}

/// Whether `item` is tagged as a mod and its highest rank is from one to nine.
pub open spec fn is_low_rank_mod(item: CacheTradableItem) -> bool {
    &&& exists|i: int| 0 <= i < item.tags.len() && is_mod_tag(#[trigger] item.tags[i]@)
    &&& max_rank_of(item) matches Some(rank) && 0 < rank < 10
}

/// Whether the rank of `item` is ignored, where low rank mods are rankless or not.
pub fn should_ignore_rank_for_low_rank_mod_with_flag(
    low_rank_mods_rankless_mode: bool,
    item: &CacheTradableItem,
) -> (r: bool)
    ensures
        r == (low_rank_mods_rankless_mode && is_low_rank_mod(*item)),
{
    if !low_rank_mods_rankless_mode {
        return false;
    }
    let mut is_mod: bool = false;
    let mut i: usize = 0;
    while i < item.tags.len() && !is_mod
        invariant
            i <= item.tags.len(),
            is_mod == exists|j: int| 0 <= j < i && is_mod_tag(#[trigger] item.tags[j]@),
        decreases item.tags.len() - i,
    {
        let tag: &str = item.tags[i].as_str();
        is_mod = tag.eq_ignore_ascii_case(MOD_TAG) || tag.eq_ignore_ascii_case(MODS_TAG);
        assert(is_mod == is_mod_tag(item.tags[i as int]@));
        i = i + 1;
    }
    if !is_mod {
        return false;
    }
    match max_rank(item) {
        Some(rank) => rank > 0 && rank < 10,
        None => false,
    }
}

/// Whether `settings` have the rank of `item` ignored.
pub open spec fn ignores_rank(settings: Settings, item: CacheTradableItem) -> bool {
    settings.live_scraper.low_rank_mods_rankless_mode && is_low_rank_mod(item)
}

/// Computes [`ignores_rank`].
pub fn should_ignore_rank_for_low_rank_mod(
    settings: &Settings,
    item: &CacheTradableItem,
) -> (r: bool)
    ensures
        r == ignores_rank(*settings, *item),
{
    should_ignore_rank_for_low_rank_mod_with_flag(
        settings.live_scraper.low_rank_mods_rankless_mode,
        item,
    )
}

/// The identifiers of the low rank mods among `items`, each once, in the order in
/// which they come up.
pub open spec fn low_rank_ids(items: Seq<CacheTradableItem>) -> Seq<Seq<char>>
    decreases items.len(),
{
    if items.len() == 0 {
        seq![]
    } else {
        let before = low_rank_ids(items.drop_last());
        let last = items.last();
        if is_low_rank_mod(last) && !before.contains(last.wfm_id@) {
            before.push(last.wfm_id@)
        } else {
            before
        }
    }
}

/// The identifiers of the low rank mods among `items`, or none where low rank mods
/// are not rankless.
pub fn low_rank_mod_ids(
    low_rank_mods_rankless_mode: bool,
    items: &[CacheTradableItem],
) -> (r: Vec<String>)
    ensures
        low_rank_mods_rankless_mode ==> views(r@) == low_rank_ids(items@),
        !low_rank_mods_rankless_mode ==> r@.len() == 0,
{
    let mut ids: Vec<String> = Vec::new();
    if !low_rank_mods_rankless_mode {
        return ids;
    }
    assert(views(ids@) =~= low_rank_ids(items@.take(0)));
    let mut i: usize = 0;
    while i < items.len()
        invariant
            i <= items.len(),
            views(ids@) == low_rank_ids(items@.take(i as int)),
        decreases items.len() - i,
    {
        let item: &CacheTradableItem = &items[i];
        assert(items@.take(i + 1).drop_last() =~= items@.take(i as int));
        if should_ignore_rank_for_low_rank_mod_with_flag(true, item)
            && !contains_text(&ids, &item.wfm_id) {
            let ghost before = ids@;
            ids.push(item.wfm_id.clone());
            assert(views(ids@) =~= views(before).push(item.wfm_id@));
        }
        i = i + 1;
    }
    assert(items@.take(i as int) =~= items@);
    ids
}

/// The identifiers are those of the low rank mods and no others, and none comes
/// twice.
pub proof fn low_rank_ids_are_those_of_low_rank_mods(items: Seq<CacheTradableItem>)
    ensures
        low_rank_ids(items).no_duplicates(),
        forall|id: Seq<char>| #[trigger]
            low_rank_ids(items).contains(id) <==> exists|i: int|
                0 <= i < items.len() && is_low_rank_mod(#[trigger] items[i]) && items[i].wfm_id@
                    == id,
    decreases items.len(),
{
    if items.len() > 0 {
        let rest = items.drop_last();
        let before = low_rank_ids(rest);
        let last = items.last();
        low_rank_ids_are_those_of_low_rank_mods(rest);
        assert(forall|i: int| 0 <= i < rest.len() ==> rest[i] == items[i]);
        assert(items[items.len() - 1] == last);
        assert forall|id: Seq<char>| #[trigger]
            low_rank_ids(items).contains(id) implies exists|i: int|
            0 <= i < items.len() && is_low_rank_mod(#[trigger] items[i]) && items[i].wfm_id@
                == id by {
            if before.contains(id) {
                let i = choose|i: int|
                    0 <= i < rest.len() && is_low_rank_mod(#[trigger] rest[i]) && rest[i].wfm_id@
                        == id;
                assert(is_low_rank_mod(items[i]));
            } else {
                assert(is_low_rank_mod(items[items.len() - 1]));
            }
        }
        assert forall|id: Seq<char>|
            exists|i: int|
                0 <= i < items.len() && is_low_rank_mod(#[trigger] items[i]) && items[i].wfm_id@
                    == id implies #[trigger] low_rank_ids(items).contains(id) by {
            let i = choose|i: int|
                0 <= i < items.len() && is_low_rank_mod(#[trigger] items[i]) && items[i].wfm_id@
                    == id;
            if i < rest.len() {
                assert(is_low_rank_mod(rest[i]));
                assert(before.contains(id));
                let k = choose|k: int| 0 <= k < before.len() && before[k] == id;
                assert(low_rank_ids(items)[k] == id);
            } else if !before.contains(id) {
                assert(low_rank_ids(items)[before.len() as int] == id);
            } else {
                assert(low_rank_ids(items) == before);
            }
        }
    }
}

/// A sub type, or the one that tells nothing apart where it is missing.
pub open spec fn or_plain(sub_type: Option<SubTypeView>) -> SubTypeView {
    match sub_type {
        Some(s) => s,
        None => plain_sub_type(),
    }
}

/// Whether two sub types agree in everything that tells items apart but the rank.
pub open spec fn same_but_for_rank(
    left: Option<SubTypeView>,
    right: Option<SubTypeView>,
) -> bool {
    &&& or_plain(left).variant == or_plain(right).variant
    &&& or_plain(left).charges == or_plain(right).charges
    &&& or_plain(left).amber_stars == or_plain(right).amber_stars
    &&& or_plain(left).cyan_stars == or_plain(right).cyan_stars
}

/// Computes [`same_but_for_rank`].
pub fn is_same_sub_type_without_rank(
    left: &Option<SubType>,
    right: &Option<SubType>,
) -> (r: bool)
    ensures
        r == same_but_for_rank(view_of(*left), view_of(*right)),
{
    let left: SubType = left.clone().unwrap_or_default();
    let right: SubType = right.clone().unwrap_or_default();
    same_text(&left.variant, &right.variant) && left.charges == right.charges
        && left.amber_stars == right.amber_stars && left.cyan_stars == right.cyan_stars
}

/// Agreeing but for the rank is an equivalence: every sub type agrees with itself,
/// and sub types that agree with one and the same agree with each other, whichever
/// comes first.
pub proof fn same_but_for_rank_is_an_equivalence(
    a: Option<SubTypeView>,
    b: Option<SubTypeView>,
    c: Option<SubTypeView>,
)
    ensures
        same_but_for_rank(a, a),
        same_but_for_rank(a, b) ==> same_but_for_rank(b, a),
        same_but_for_rank(a, b) && same_but_for_rank(b, c) ==> same_but_for_rank(a, c),
{
}

/// The rank makes no difference: a sub type agrees with what it is at any rank.
pub proof fn rank_makes_no_difference(sub_type: SubTypeView, rank: Option<i64>)
    ensures
        same_but_for_rank(Some(sub_type), Some(SubTypeView { rank, ..sub_type })),
{
}

/// Whether `entry` is about a rank. The greatest `i64` does not count as one.
pub open spec fn is_ranked<A: Amount>(entry: ItemPriceView<A>) -> bool {
    entry.sub_type matches Some(s) && s.rank matches Some(rank) && rank < i64::MAX
}

/// The rank that `entry` is about.
pub open spec fn rank_of<A: Amount>(entry: ItemPriceView<A>) -> i64 {
    entry.sub_type->0.rank->0
}

/// Whether `entry` has a sub type that is not about a rank.
pub open spec fn is_rankless<A: Amount>(entry: ItemPriceView<A>) -> bool {
    entry.sub_type matches Some(s) && s.rank is None
}

/// Whether the entry at `i` has the least rank of all, and is the first with it.
pub open spec fn is_first_of_least_rank<A: Amount>(
    entries: Seq<ItemPriceView<A>>,
    i: int,
) -> bool {
    &&& 0 <= i < entries.len()
    &&& is_ranked(entries[i])
    &&& forall|j: int|
        0 <= j < entries.len() && is_ranked(#[trigger] entries[j]) ==> rank_of(entries[i])
            <= rank_of(entries[j])
    &&& forall|j: int|
        0 <= j < i && is_ranked(#[trigger] entries[j]) ==> rank_of(entries[i]) < rank_of(
            entries[j],
        )
}

/// Whether the entry at `i` is the first with a sub type that is not about a rank.
pub open spec fn is_first_rankless<A: Amount>(
    entries: Seq<ItemPriceView<A>>,
    i: int,
) -> bool {
    &&& 0 <= i < entries.len()
    &&& is_rankless(entries[i])
    &&& forall|j: int| 0 <= j < i ==> !is_rankless(#[trigger] entries[j])
}

/// Whether `sub_type` is the one that stands for all of `entries`: that of the
/// least rank, or else the first that is not about a rank, or else none.
pub open spec fn is_min_rank_sub_type<A: Amount>(
    entries: Seq<ItemPriceView<A>>,
    sub_type: Option<SubTypeView>,
) -> bool {
    if exists|j: int| 0 <= j < entries.len() && is_ranked(#[trigger] entries[j]) {
        exists|i: int| #[trigger]
            is_first_of_least_rank(entries, i) && sub_type == entries[i].sub_type
    } else if exists|j: int| 0 <= j < entries.len() && is_rankless(#[trigger] entries[j]) {
        exists|i: int| #[trigger]
            is_first_rankless(entries, i) && sub_type == entries[i].sub_type
    } else {
        sub_type is None
    }
}

/// The sub type that stands for all of `entries`.
pub open spec fn min_rank_sub_type_of<A: Amount>(
    entries: Seq<ItemPriceView<A>>,
) -> Option<SubTypeView> {
    choose|sub_type: Option<SubTypeView>| is_min_rank_sub_type(entries, sub_type)
}

/// Only one sub type stands for all of `entries`.
pub proof fn min_rank_sub_type_is_unique<A: Amount>(
    entries: Seq<ItemPriceView<A>>,
    sub_type: Option<SubTypeView>,
)
    requires
        is_min_rank_sub_type(entries, sub_type),
    ensures
        sub_type == min_rank_sub_type_of(entries),
{
    let other = min_rank_sub_type_of(entries);
    assert(is_min_rank_sub_type(entries, other));
    if exists|j: int| 0 <= j < entries.len() && is_ranked(#[trigger] entries[j]) {
        let i = choose|i: int| #[trigger]
            is_first_of_least_rank(entries, i) && sub_type == entries[i].sub_type;
        let k = choose|k: int| #[trigger]
            is_first_of_least_rank(entries, k) && other == entries[k].sub_type;
        assert(is_ranked(entries[i]) && is_ranked(entries[k]));
    } else if exists|j: int| 0 <= j < entries.len() && is_rankless(#[trigger] entries[j]) {
        let i = choose|i: int| #[trigger]
            is_first_rankless(entries, i) && sub_type == entries[i].sub_type;
        let k = choose|k: int| #[trigger]
            is_first_rankless(entries, k) && other == entries[k].sub_type;
        assert(is_rankless(entries[i]) && is_rankless(entries[k]));
    }
}

/// The sub type that stands for all of `items`: that of the least rank, or else the
/// first that is not about a rank, or else none.
pub fn min_rank_sub_type<A: Amount>(items: &[ItemPriceInfo<A>]) -> (r: Option<SubType>)
    ensures
        is_min_rank_sub_type(views(items@), view_of(r)),
        view_of(r) == min_rank_sub_type_of(views(items@)),
{
    let mut found: Option<SubType> = None;
    let mut min_rank: i64 = i64::MAX;
    let ghost entries = views(items@);
    let ghost mut at: int = -1;
    let mut i: usize = 0;
    while i < items.len()
        invariant
            i <= items.len(),
            entries == views(items@),
            found is None <==> at == -1,
            found is Some ==> 0 <= at < i && view_of(found) == entries[at].sub_type,
            min_rank == i64::MAX ==> forall|j: int|
                0 <= j < i ==> !is_ranked(#[trigger] entries[j]),
            min_rank == i64::MAX && found is None ==> forall|j: int|
                0 <= j < i ==> !is_rankless(#[trigger] entries[j]),
            min_rank == i64::MAX && found is Some ==> is_first_rankless(entries, at),
            min_rank < i64::MAX ==> found is Some && is_first_of_least_rank(
                entries.take(i as int),
                at,
            ) && rank_of(entries[at]) == min_rank,
        decreases items.len() - i,
    {
        let ghost seen = entries.take(i as int);
        let ghost next = entries.take(i + 1);
        assert(forall|j: int| 0 <= j < i ==> next[j] == seen[j] && seen[j] == entries[j]);
        assert(next[i as int] == entries[i as int]);
        assert(entries[i as int] == items[i as int]@);
        if let Some(sub_type) = &items[i].sub_type {
            if let Some(rank) = sub_type.rank {
                if rank < min_rank {
                    min_rank = rank;
                    found = Some(sub_type.clone());
                    proof {
                        at = i as int;
                    }
                    assert(is_ranked(next[at]));
                    assert forall|j: int| 0 <= j < i && is_ranked(#[trigger] next[j]) implies rank
                        < rank_of(next[j]) by {
                        assert(is_ranked(seen[j]));
                    }
                    assert(is_first_of_least_rank(next, at));
                }
            } else if found.is_none() {
                found = Some(sub_type.clone());
                proof {
                    at = i as int;
                }
            }
        }
        assert(min_rank < i64::MAX ==> is_first_of_least_rank(next, at)) by {
            if min_rank < i64::MAX && at < i {
                assert(is_first_of_least_rank(seen, at));
                assert(is_ranked(next[at]));
                assert forall|j: int|
                    0 <= j < next.len() && is_ranked(#[trigger] next[j]) implies rank_of(next[at])
                    <= rank_of(next[j]) by {
                    if j < i {
                        assert(is_ranked(seen[j]));
                    }
                }
                assert forall|j: int|
                    0 <= j < at && is_ranked(#[trigger] next[j]) implies rank_of(next[at])
                    < rank_of(next[j]) by {
                    assert(is_ranked(seen[j]));
                }
            }
        }
        i = i + 1;
    }
    proof {
        assert(entries.take(i as int) =~= entries);
        if min_rank < i64::MAX {
            assert(is_ranked(entries[at]));
        } else if found is Some {
            assert(is_rankless(entries[at]));
        }
        min_rank_sub_type_is_unique(entries, view_of(found));
    }
    found
}

/// The name of an item and its sub type together: the short text of the sub type
/// follows a hyphen, where there is such a text.
pub open spec fn uuid_of(wfm_url: Seq<char>, sub_type: Option<SubTypeView>) -> Seq<char> {
    match sub_type {
        Some(s) if s.short_display.len() > 0 => wfm_url + "-"@ + s.short_display,
        _ => wfm_url,
    }
}

/// Computes [`uuid_of`].
pub fn build_uuid(wfm_url: &str, sub_type: &Option<SubType>) -> (r: String)
    ensures
        r@ == uuid_of(wfm_url@, view_of(*sub_type)),
{
    if let Some(sub_type) = sub_type {
        if !sub_type.short_display.as_str().is_empty() {
            return joined(wfm_url, "-", sub_type.short_display.as_str());
        }
    }
    wfm_url.to_owned()
}

/// One figure of each of `entries`, weighted by the volume of the entry.
pub open spec fn weighted<A: Amount>(
    entries: Seq<ItemPriceView<A>>,
    figure: spec_fn(ItemPriceView<A>) -> A,
) -> Seq<(A, A)> {
    Seq::new(entries.len(), |i: int| (figure(entries[i]), entries[i].volume))
}

/// The moving averages of those of `entries` that have one, weighted by the volume
/// of the entry.
pub open spec fn weighted_moving<A: Amount>(entries: Seq<ItemPriceView<A>>) -> Seq<(A, A)>
    decreases entries.len(),
{
    if entries.len() == 0 {
        seq![]
    } else {
        let before = weighted_moving(entries.drop_last());
        match entries.last().moving_avg {
            Some(moving) => before.push((moving, entries.last().volume)),
            None => before,
        }
    }
}

/// The moving average that goes with the average `average` of moving averages and
/// the average price `avg_price`: a zero stands for a missing moving average, for
/// which the average price steps in where it is above zero.
pub open spec fn moving_or_average<A: Amount>(average: A, avg_price: A) -> Option<A> {
    if !average.same(A::whole(0)) {
        Some(average)
    } else if A::whole(0).below(avg_price) {
        Some(avg_price)
    } else {
        None
    }
}

/// Figures for an item as a whole, from figures for each of its ranks: the names
/// and the tax of the first, the sub type that stands for all, volumes added up,
/// the extreme prices, and averages weighted by volume.
pub open spec fn aggregated<A: Amount>(entries: Seq<ItemPriceView<A>>) -> ItemPriceView<A>
    recommends
        entries.len() > 0,
{
    let sub_type = min_rank_sub_type_of(entries);
    let avg_price = weighted_mean(weighted(entries, |e: ItemPriceView<A>| e.avg_price));
    ItemPriceView {
        wfm_url: entries[0].wfm_url,
        wfm_id: entries[0].wfm_id,
        uuid: uuid_of(entries[0].wfm_url, sub_type),
        volume: volume_sum(Seq::new(entries.len(), |i: int| entries[i].volume)),
        max_price: finite_or_zero(highest(Seq::new(entries.len(), |i: int| entries[i].max_price))),
        min_price: finite_or_zero(lowest(Seq::new(entries.len(), |i: int| entries[i].min_price))),
        avg_price,
        moving_avg: moving_or_average(weighted_mean(weighted_moving(entries)), avg_price),
        median: weighted_mean(weighted(entries, |e: ItemPriceView<A>| e.median)),
        profit: weighted_mean(weighted(entries, |e: ItemPriceView<A>| e.profit)),
        profit_margin: weighted_mean(weighted(entries, |e: ItemPriceView<A>| e.profit_margin)),
        trading_tax: entries[0].trading_tax,
        week_price_shift: weighted_mean(
            weighted(entries, |e: ItemPriceView<A>| e.week_price_shift),
        ),
        sub_type,
    }
}

/// Figures for an item as a whole, from figures for each of its ranks.
pub fn aggregate_rankless_item_price<A: Amount>(entries: &[ItemPriceInfo<A>]) -> (r: Option<
    ItemPriceInfo<A>,
>)
    ensures
        r is None <==> entries@.len() == 0,
        r matches Some(price) ==> price@ == aggregated(views(entries@)),
{
    if entries.len() == 0 {
        return None;
    }
    let mut volumes: Vec<A> = Vec::new();
    let mut highs: Vec<A> = Vec::new();
    let mut lows: Vec<A> = Vec::new();
    let mut averages: Vec<(A, A)> = Vec::new();
    let mut movings: Vec<(A, A)> = Vec::new();
    let mut medians: Vec<(A, A)> = Vec::new();
    let mut profits: Vec<(A, A)> = Vec::new();
    let mut margins: Vec<(A, A)> = Vec::new();
    let mut shifts: Vec<(A, A)> = Vec::new();
    let ghost all = views(entries@);
    let mut i: usize = 0;
    while i < entries.len()
        invariant
            i <= entries.len(),
            all == views(entries@),
            volumes@ =~= Seq::new(i as nat, |j: int| all[j].volume),
            highs@ =~= Seq::new(i as nat, |j: int| all[j].max_price),
            lows@ =~= Seq::new(i as nat, |j: int| all[j].min_price),
            averages@ =~= Seq::new(i as nat, |j: int| (all[j].avg_price, all[j].volume)),
            movings@ =~= weighted_moving(all.take(i as int)),
            medians@ =~= Seq::new(i as nat, |j: int| (all[j].median, all[j].volume)),
            profits@ =~= Seq::new(i as nat, |j: int| (all[j].profit, all[j].volume)),
            margins@ =~= Seq::new(i as nat, |j: int| (all[j].profit_margin, all[j].volume)),
            shifts@ =~= Seq::new(i as nat, |j: int| (all[j].week_price_shift, all[j].volume)),
        decreases entries.len() - i,
    {
        let entry: &ItemPriceInfo<A> = &entries[i];
        assert(all[i as int] == entry@);
        assert(all.take(i + 1).drop_last() =~= all.take(i as int));
        volumes.push(entry.volume);
        highs.push(entry.max_price);
        lows.push(entry.min_price);
        averages.push((entry.avg_price, entry.volume));
        if let Some(moving) = entry.moving_avg {
            movings.push((moving, entry.volume));
        }
        medians.push((entry.median, entry.volume));
        profits.push((entry.profit, entry.volume));
        margins.push((entry.profit_margin, entry.volume));
        shifts.push((entry.week_price_shift, entry.volume));
        i = i + 1;
    }
    proof {
        assert(all.take(i as int) =~= all);
        assert(averages@ =~= weighted(all, |e: ItemPriceView<A>| e.avg_price));
        assert(medians@ =~= weighted(all, |e: ItemPriceView<A>| e.median));
        assert(profits@ =~= weighted(all, |e: ItemPriceView<A>| e.profit));
        assert(margins@ =~= weighted(all, |e: ItemPriceView<A>| e.profit_margin));
        assert(shifts@ =~= weighted(all, |e: ItemPriceView<A>| e.week_price_shift));
        assert(volumes@ =~= Seq::new(all.len(), |j: int| all[j].volume));
        assert(highs@ =~= Seq::new(all.len(), |j: int| all[j].max_price));
        assert(lows@ =~= Seq::new(all.len(), |j: int| all[j].min_price));
        assert(all[0] == entries[0]@);
    }
    let zero: A = A::from_int(0);
    let avg_price: A = weighted_average(averages.as_slice());
    let average: A = weighted_average(movings.as_slice());
    let moving_avg: Option<A> = if !average.equals(zero) {
        Some(average)
    } else if zero.less_than(avg_price) {
        Some(avg_price)
    } else {
        None
    };
    let sub_type: Option<SubType> = min_rank_sub_type(entries);
    let base: &ItemPriceInfo<A> = &entries[0];
    Some(
        ItemPriceInfo {
            wfm_url: base.wfm_url.clone(),
            wfm_id: base.wfm_id.clone(),
            uuid: build_uuid(base.wfm_url.as_str(), &sub_type),
            volume: total_volume(volumes.as_slice()),
            max_price: highest_price(highs.as_slice()),
            min_price: lowest_price(lows.as_slice()),
            avg_price,
            moving_avg,
            median: weighted_average(medians.as_slice()),
            profit: weighted_average(profits.as_slice()),
            profit_margin: weighted_average(margins.as_slice()),
            trading_tax: base.trading_tax,
            week_price_shift: weighted_average(shifts.as_slice()),
            sub_type,
        },
    )
}

/// Those of `prices` that are about the item `wfm_id`, in their order.
pub open spec fn prices_of<A: Amount>(
    prices: Seq<ItemPriceView<A>>,
    wfm_id: Seq<char>,
) -> Seq<ItemPriceView<A>> {
    prices.filter(|price: ItemPriceView<A>| price.wfm_id == wfm_id)
}

/// Computes [`prices_of`].
pub fn prices_of_item<A: Amount>(prices: &[ItemPriceInfo<A>], wfm_id: &String) -> (r: Vec<
    ItemPriceInfo<A>,
>)
    ensures
        views(r@) == prices_of(views(prices@), wfm_id@),
{
    let mut found: Vec<ItemPriceInfo<A>> = Vec::new();
    let ghost all = views(prices@);
    let ghost wanted = |price: ItemPriceView<A>| price.wfm_id == wfm_id@;
    reveal_with_fuel(Seq::filter, 1);
    assert(views(found@) =~= all.take(0).filter(wanted));
    let mut i: usize = 0;
    while i < prices.len()
        invariant
            i <= prices.len(),
            all == views(prices@),
            wanted == |price: ItemPriceView<A>| price.wfm_id == wfm_id@,
            views(found@) == all.take(i as int).filter(wanted),
        decreases prices.len() - i,
    {
        let price: &ItemPriceInfo<A> = &prices[i];
        reveal_with_fuel(Seq::filter, 1);
        assert(all[i as int] == price@);
        assert(all.take(i + 1).drop_last() =~= all.take(i as int));
        if price.wfm_id == *wfm_id {
            let ghost before = found@;
            found.push(price.clone());
            assert(views(found@) =~= views(before).push(price@));
        }
        i = i + 1;
    }
    assert(all.take(i as int) =~= all);
    found
}

/// Figures for the item `wfm_id` as a whole, from what is known of each of its
/// ranks: nothing but zeros where nothing is known.
pub open spec fn rankless_price<A: Amount>(
    prices: Seq<ItemPriceView<A>>,
    wfm_id: Seq<char>,
) -> ItemPriceView<A> {
    if prices_of(prices, wfm_id).len() == 0 {
        no_price()
    } else {
        aggregated(prices_of(prices, wfm_id))
    }
}

/// Whether `price` is what a search found, or one of nothing but zeros where it
/// found none, or the failure of the search.
pub open spec fn is_price_found<A: Amount, E>(
    found: Result<Option<ItemPriceInfo<A>>, E>,
    price: Result<ItemPriceInfo<A>, E>,
) -> bool {
    match found {
        Err(e) => price == Err::<ItemPriceInfo<A>, E>(e),
        Ok(Some(p)) => price == Ok::<ItemPriceInfo<A>, E>(p),
        Ok(None) => price matches Ok(p) && p@ == no_price::<A>(),
    }
}

/// Figures for the item as a whole are about that item: its identifier is kept.
pub proof fn rankless_price_is_about_the_item<A: Amount>(
    prices: Seq<ItemPriceView<A>>,
    wfm_id: Seq<char>,
)
    requires
        prices_of(prices, wfm_id).len() > 0,
    ensures
        rankless_price(prices, wfm_id).wfm_id == wfm_id,
{
    prices.lemma_filter_pred(|price: ItemPriceView<A>| price.wfm_id == wfm_id, 0);
}

/// The price that a search found, or one of nothing but zeros where it found none.
/// A failure of the search is passed on.
pub fn found_price<A: Amount, E>(found: Result<Option<ItemPriceInfo<A>>, E>) -> (r: Result<
    ItemPriceInfo<A>,
    E,
>)
    ensures
        is_price_found(found, r),
{
    match found {
        Err(e) => Err(e),
        Ok(Some(price)) => Ok(price),
        Ok(None) => Ok(ItemPriceInfo::default()),
    }
}

/// The price to go by for `item_info`. Where its rank is ignored, it is that of the
/// item as a whole, from `prices`, and nothing is searched. Otherwise it is what
/// `find_by` finds for the item's name and `sub_type`, as [`found_price`] reads it.
pub fn get_effective_item_price<
    A: Amount,
    E,
    F: FnOnce(&String, Option<SubType>) -> Result<Option<ItemPriceInfo<A>>, E>,
>(
    item_info: &CacheTradableItem,
    sub_type: Option<SubType>,
    settings: &Settings,
    prices: &[ItemPriceInfo<A>],
    find_by: F,
) -> (r: Result<ItemPriceInfo<A>, E>)
    requires
        !ignores_rank(*settings, *item_info) ==> call_requires(
            find_by,
            (&item_info.wfm_url_name, sub_type),
        ),
    ensures
        ignores_rank(*settings, *item_info) ==> (r matches Ok(price) && price@ == rankless_price(
            views(prices@),
            item_info.wfm_id@,
        )),
        !ignores_rank(*settings, *item_info) ==> exists|
            found: Result<Option<ItemPriceInfo<A>>, E>,
        | #[trigger]
            call_ensures(find_by, (&item_info.wfm_url_name, sub_type), found) && is_price_found(
                found,
                r,
            ),
{
    if !should_ignore_rank_for_low_rank_mod(settings, item_info) {
        let found: Result<Option<ItemPriceInfo<A>>, E> = find_by(
            &item_info.wfm_url_name,
            sub_type,
        );
        return found_price(found);
    }
    let items: Vec<ItemPriceInfo<A>> = prices_of_item(prices, &item_info.wfm_id);
    Ok(aggregate_rankless_item_price(items.as_slice()).unwrap_or_default())
}

/// Leaves `live_orders` as they are where the rank of `item_info` is ignored, and
/// otherwise puts those in their place that `filter_by_sub_type` makes of them for
/// `sub_type`, called once and with its flag off.
pub fn filter_market_orders_by_mode<
    T,
    F: FnOnce(OrderList<T>, Option<SubType>, bool) -> OrderList<T>,
>(
    live_orders: &mut OrderList<T>,
    sub_type: Option<SubType>,
    item_info: &CacheTradableItem,
    settings: &Settings,
    filter_by_sub_type: F,
)
    requires
        !ignores_rank(*settings, *item_info) ==> call_requires(
            filter_by_sub_type,
            (*old(live_orders), sub_type, false),
        ),
    ensures
        ignores_rank(*settings, *item_info) ==> *final(live_orders) == *old(live_orders),
        !ignores_rank(*settings, *item_info) ==> call_ensures(
            filter_by_sub_type,
            (*old(live_orders), sub_type, false),
            *final(live_orders),
        ),
{
    if should_ignore_rank_for_low_rank_mod(settings, item_info) {
        return;
    }
    let mut all: OrderList<T> = OrderList { buy_orders: Vec::new(), sell_orders: Vec::new() };
    std::mem::swap(&mut all, live_orders);
    *live_orders = filter_by_sub_type(all, sub_type, false);
}

/// The highest rank is the item's own where it has one, whatever its sub types say, and
/// that of its sub types where it has none.
pub proof fn own_rank_comes_first(item: &CacheTradableItem, r: Option<i64>)
    requires
        call_ensures(max_rank, (item,), r),
    ensures
        item.max_rank is Some ==> r == item.max_rank,
        item.max_rank is None && item.sub_type is None ==> r is None,
        item.max_rank is None ==> (item.sub_type matches Some(sub_type) ==> r == sub_type.max_rank),
{
}

/// Whether `tag` spells "mod" or "mods", letter by letter, in capitals or not.
pub open spec fn spells_mod(tag: Seq<char>) -> bool {
    &&& tag.len() == 3 || tag.len() == 4
    &&& tag[0] == 'm' || tag[0] == 'M'
    &&& tag[1] == 'o' || tag[1] == 'O'
    &&& tag[2] == 'd' || tag[2] == 'D'
    &&& tag.len() == 4 ==> tag[3] == 's' || tag[3] == 'S'
}

proof fn lemma_mod_tag_spells_mod(tag: Seq<char>)
    ensures
        is_mod_tag(tag) <==> spells_mod(tag),
{
    reveal_strlit("mod");
    reveal_strlit("mods");
    let short = "mod"@;
    let long = "mods"@;
    assert(short.len() == 3 && short[0] == 'm' && short[1] == 'o' && short[2] == 'd');
    assert(long.len() == 4 && long[0] == 'm' && long[1] == 'o' && long[2] == 'd' && long[3] == 's');
    if is_mod_tag(tag) {
        assert(ascii_lower(tag[0]) == 'm' && ascii_lower(tag[1]) == 'o' && ascii_lower(tag[2])
            == 'd');
        if tag.len() == 4 {
            assert(ascii_lower(tag[3]) == 's');
        }
    }
}

/// The rank of an item is ignored exactly where low rank mods are rankless, some tag of
/// the item spells "mod" or "mods", and its highest rank is from one to nine.
pub proof fn low_rank_mods_are_told_by_tag_and_rank(
    low_rank_mods_rankless_mode: bool,
    item: &CacheTradableItem,
    rank: Option<i64>,
    r: bool,
)
    requires
        call_ensures(
            should_ignore_rank_for_low_rank_mod_with_flag,
            (low_rank_mods_rankless_mode, item),
            r,
        ),
        call_ensures(max_rank, (item,), rank),
    ensures
        r ==> low_rank_mods_rankless_mode && rank is Some && 1 <= rank->0 <= 9,
        r ==> exists|i: int| 0 <= i < item.tags@.len() && spells_mod(#[trigger] item.tags@[i]@),
        low_rank_mods_rankless_mode && rank is Some && 1 <= rank->0 <= 9 && (exists|i: int|
            0 <= i < item.tags@.len() && spells_mod(#[trigger] item.tags@[i]@)) ==> r,
{
    assert forall|i: int| 0 <= i < item.tags@.len() implies is_mod_tag(#[trigger] item.tags@[i]@)
        <==> spells_mod(item.tags@[i]@) by {
        lemma_mod_tag_spells_mod(item.tags@[i]@);
    }
    if r {
        let i = choose|i: int| 0 <= i < item.tags.len() && is_mod_tag(#[trigger] item.tags[i]@);
        assert(spells_mod(item.tags@[i]@));
    }
    if exists|i: int| 0 <= i < item.tags@.len() && spells_mod(#[trigger] item.tags@[i]@) {
        let i = choose|i: int| 0 <= i < item.tags@.len() && spells_mod(#[trigger] item.tags@[i]@);
        assert(is_mod_tag(item.tags[i]@));
    }
}

/// Of the settings only whether low rank mods are rankless counts.
pub proof fn settings_count_by_their_flag(
    settings: &Settings,
    item: &CacheTradableItem,
    r: bool,
    by_flag: bool,
)
    requires
        call_ensures(should_ignore_rank_for_low_rank_mod, (settings, item), r),
        call_ensures(
            should_ignore_rank_for_low_rank_mod_with_flag,
            (settings.live_scraper.low_rank_mods_rankless_mode, item),
            by_flag,
        ),
    ensures
        r == by_flag,
        r == ignores_rank(*settings, *item),
{
}

/// Identifiers of low rank mods are found exactly for the items whose rank is ignored,
/// each once, and none where low rank mods are not rankless.
pub proof fn low_rank_mod_ids_are_complete(
    low_rank_mods_rankless_mode: bool,
    items: &[CacheTradableItem],
    r: Vec<String>,
    item: &CacheTradableItem,
    ignored: bool,
)
    requires
        call_ensures(low_rank_mod_ids, (low_rank_mods_rankless_mode, items), r),
        items@.contains(*item),
        call_ensures(
            should_ignore_rank_for_low_rank_mod_with_flag,
            (low_rank_mods_rankless_mode, item),
            ignored,
        ),
    ensures
        ignored ==> views(r@).contains(item.wfm_id@),
        !low_rank_mods_rankless_mode ==> r@.len() == 0,
        views(r@).no_duplicates(),
        forall|id: Seq<char>| #[trigger]
            views(r@).contains(id) ==> exists|i: int|
                0 <= i < items@.len() && is_low_rank_mod(#[trigger] items@[i]) && items@[i].wfm_id@
                    == id,
{
    low_rank_ids_are_those_of_low_rank_mods(items@);
    let at = choose|i: int| 0 <= i < items@.len() && items@[i] == *item;
    if ignored {
        assert(is_low_rank_mod(items@[at]));
        assert(low_rank_ids(items@).contains(item.wfm_id@));
    }
}

/// Sub types agree but for the rank exactly where their variants, charges and stars do. A
/// missing sub type has none of these.
pub proof fn sub_types_agree_in_four_things(
    left: &Option<SubType>,
    right: &Option<SubType>,
    r: bool,
)
    requires
        call_ensures(is_same_sub_type_without_rank, (left, right), r),
    ensures
        left is None && right is None ==> r,
        (*left matches Some(a) ==> (*right matches Some(b) ==> (r <==> view_of(a.variant)
            == view_of(b.variant) && a.charges == b.charges && a.amber_stars == b.amber_stars
            && a.cyan_stars == b.cyan_stars))),
        left is None ==> (*right matches Some(b) ==> (r <==> b.variant is None && b.charges is None
            && b.amber_stars is None && b.cyan_stars is None)),
        right is None ==> (*left matches Some(a) ==> (r <==> a.variant is None && a.charges is None
            && a.amber_stars is None && a.cyan_stars is None)),
        r == same_but_for_rank(view_of(*left), view_of(*right)),
{
}

/// The same of what sub types say.
pub proof fn sub_types_agree_in_four_things_they_say(a: SubTypeView, b: SubTypeView)
    ensures
        same_but_for_rank(Some(a), Some(b)) <==> a.variant == b.variant && a.charges == b.charges
            && a.amber_stars == b.amber_stars && a.cyan_stars == b.cyan_stars,
        same_but_for_rank(None, Some(b)) <==> b.variant is None && b.charges is None
            && b.amber_stars is None && b.cyan_stars is None,
        same_but_for_rank(Some(a), None) <==> a.variant is None && a.charges is None
            && a.amber_stars is None && a.cyan_stars is None,
        same_but_for_rank(None, None),
{
}

/// What stands for all is the sub type with the least rank, of which it is the first. A
/// sub type without a rank stands for all only where no other has a rank below the
/// greatest `i64`, and is then the first without one.
pub proof fn least_rank_stands_for_all<A: Amount>(
    items: &[ItemPriceInfo<A>],
    r: Option<SubType>,
    at: int,
)
    requires
        call_ensures(min_rank_sub_type::<A>, (items,), r),
        0 <= at < items@.len(),
        items@[at].sub_type is Some,
    ensures
        (items@[at].sub_type->0.rank matches Some(rank) && rank < i64::MAX && (forall|j: int|
            0 <= j < items@.len() ==> ((#[trigger] items@[j]).sub_type matches Some(s) ==> (
            s.rank matches Some(other) ==> rank <= other && (j < at ==> rank < other))))) ==> view_of(
            r,
        ) == view_of(items@[at].sub_type),
        (items@[at].sub_type->0.rank is None && (forall|j: int|
            0 <= j < items@.len() ==> ((#[trigger] items@[j]).sub_type matches Some(s) ==> (
            s.rank matches Some(other) ==> other == i64::MAX) && (j < at ==> s.rank is Some))))
            ==> view_of(r) == view_of(items@[at].sub_type),
{
    let entries = views(items@);
    assert(forall|j: int| 0 <= j < items@.len() ==> entries[j] == (#[trigger] items@[j])@);
    assert(forall|j: int| 0 <= j < items@.len() ==> #[trigger] entries[j] == items@[j]@);
    if items@[at].sub_type->0.rank matches Some(rank) && rank < i64::MAX && (forall|j: int|
        0 <= j < items@.len() ==> ((#[trigger] items@[j]).sub_type matches Some(s) ==> (
        s.rank matches Some(other) ==> rank <= other && (j < at ==> rank < other)))) {
        assert(is_ranked(entries[at]));
        assert(is_first_of_least_rank(entries, at));
        assert(is_min_rank_sub_type(entries, entries[at].sub_type));
        min_rank_sub_type_is_unique(entries, entries[at].sub_type);
    } else if items@[at].sub_type->0.rank is None && (forall|j: int|
        0 <= j < items@.len() ==> ((#[trigger] items@[j]).sub_type matches Some(s) ==> (
        s.rank matches Some(other) ==> other == i64::MAX) && (j < at ==> s.rank is Some))) {
        assert(is_rankless(entries[at]));
        assert(forall|j: int| 0 <= j < entries.len() ==> !is_ranked(#[trigger] entries[j]));
        assert(is_first_rankless(entries, at));
        assert(is_min_rank_sub_type(entries, entries[at].sub_type));
        min_rank_sub_type_is_unique(entries, entries[at].sub_type);
    }
}

/// What stands for all is the sub type of one of the items, and is missing only where no
/// item has a sub type that counts.
pub proof fn what_stands_for_all_is_one_of_them<A: Amount>(
    items: &[ItemPriceInfo<A>],
    r: Option<SubType>,
)
    requires
        call_ensures(min_rank_sub_type::<A>, (items,), r),
    ensures
        r is Some ==> exists|i: int|
            0 <= i < items@.len() && view_of((#[trigger] items@[i]).sub_type) == view_of(r),
        r is None ==> forall|i: int|
            0 <= i < items@.len() ==> ((#[trigger] items@[i]).sub_type matches Some(s) ==> s.rank
                == Some(i64::MAX)),
{
    let entries = views(items@);
    assert(forall|j: int| 0 <= j < items@.len() ==> entries[j] == (#[trigger] items@[j])@);
    if r is Some {
        if exists|j: int| 0 <= j < entries.len() && is_ranked(#[trigger] entries[j]) {
            let i = choose|i: int| #[trigger]
                is_first_of_least_rank(entries, i) && view_of(r) == entries[i].sub_type;
            assert(view_of(items@[i].sub_type) == view_of(r));
        } else {
            let i = choose|i: int| #[trigger]
                is_first_rankless(entries, i) && view_of(r) == entries[i].sub_type;
            assert(view_of(items@[i].sub_type) == view_of(r));
        }
    } else {
        assert forall|i: int| 0 <= i < items@.len() implies ((
        #[trigger] items@[i]).sub_type matches Some(s) ==> s.rank == Some(i64::MAX)) by {
            assert(entries[i] == items@[i]@);
            assert(!is_ranked(entries[i]) && !is_rankless(entries[i])) by {
                if is_ranked(entries[i]) {
                    let k = choose|k: int| #[trigger]
                        is_first_of_least_rank(entries, k) && view_of(r) == entries[k].sub_type;
                    assert(is_ranked(entries[k]));
                } else if is_rankless(entries[i]) {
                    if exists|j: int| 0 <= j < entries.len() && is_ranked(#[trigger] entries[j]) {
                        let k = choose|k: int| #[trigger]
                            is_first_of_least_rank(entries, k) && view_of(r) == entries[k].sub_type;
                        assert(is_ranked(entries[k]));
                    } else {
                        let k = choose|k: int| #[trigger]
                            is_first_rankless(entries, k) && view_of(r) == entries[k].sub_type;
                        assert(is_rankless(entries[k]));
                    }
                }
            }
        }
    }
}

/// A name begins with the item's own, and what follows is a hyphen and the short text of
/// the sub type, or nothing where there is no such text.
pub proof fn uuid_is_name_and_short_text(wfm_url: &str, sub_type: &Option<SubType>, r: String)
    requires
        call_ensures(build_uuid, (wfm_url, sub_type), r),
    ensures
        sub_type is None ==> r@ == wfm_url@,
        *sub_type matches Some(s) ==> (s.short_display@.len() == 0 ==> r@ == wfm_url@),
        *sub_type matches Some(s) ==> (s.short_display@.len() > 0 ==> r@ == wfm_url@ + seq!['-']
            + s.short_display@),
{
    reveal_strlit("-");
    assert("-"@ =~= seq!['-']);
}

/// Each figure for an item as a whole is the average of that figure over all ranks,
/// weighted by their volumes: it is what [`weighted_average`] gives for `pairs`, where
/// these are the figures of all entries with the volumes of the same entries.
pub proof fn figures_are_averages_over_all_ranks<A: Amount>(
    entries: &[ItemPriceInfo<A>],
    price: ItemPriceInfo<A>,
    pairs: &[(A, A)],
    average: A,
)
    requires
        call_ensures(aggregate_rankless_item_price::<A>, (entries,), Some(price)),
        call_ensures(weighted_average::<A>, (pairs,), average),
        pairs@.len() == entries@.len(),
        forall|i: int| 0 <= i < pairs@.len() ==> (#[trigger] pairs@[i]).1 == entries@[i].volume,
    ensures
        (forall|i: int| 0 <= i < pairs@.len() ==> (#[trigger] pairs@[i]).0 == entries@[i].avg_price)
            ==> price.avg_price == average,
        (forall|i: int| 0 <= i < pairs@.len() ==> (#[trigger] pairs@[i]).0 == entries@[i].median)
            ==> price.median == average,
        (forall|i: int| 0 <= i < pairs@.len() ==> (#[trigger] pairs@[i]).0 == entries@[i].profit)
            ==> price.profit == average,
        (forall|i: int|
            0 <= i < pairs@.len() ==> (#[trigger] pairs@[i]).0 == entries@[i].profit_margin)
            ==> price.profit_margin == average,
        (forall|i: int|
            0 <= i < pairs@.len() ==> (#[trigger] pairs@[i]).0 == entries@[i].week_price_shift)
            ==> price.week_price_shift == average,
{
    let all = views(entries@);
    assert(forall|i: int| 0 <= i < all.len() ==> all[i] == entries@[i]@);
    if forall|i: int| 0 <= i < pairs@.len() ==> (#[trigger] pairs@[i]).0 == entries@[i].avg_price {
        assert(pairs@ =~= weighted(all, |e: ItemPriceView<A>| e.avg_price));
    }
    if forall|i: int| 0 <= i < pairs@.len() ==> (#[trigger] pairs@[i]).0 == entries@[i].median {
        assert(pairs@ =~= weighted(all, |e: ItemPriceView<A>| e.median));
    }
    if forall|i: int| 0 <= i < pairs@.len() ==> (#[trigger] pairs@[i]).0 == entries@[i].profit {
        assert(pairs@ =~= weighted(all, |e: ItemPriceView<A>| e.profit));
    }
    if forall|i: int|
        0 <= i < pairs@.len() ==> (#[trigger] pairs@[i]).0 == entries@[i].profit_margin {
        assert(pairs@ =~= weighted(all, |e: ItemPriceView<A>| e.profit_margin));
    }
    if forall|i: int|
        0 <= i < pairs@.len() ==> (#[trigger] pairs@[i]).0 == entries@[i].week_price_shift {
        assert(pairs@ =~= weighted(all, |e: ItemPriceView<A>| e.week_price_shift));
    }
    assert(price@.avg_price == price.avg_price && price@.median == price.median);
}

/// In whole units each figure for an item as a whole, times the sum of the volumes, is the
/// sum of that figure over all ranks, each times its volume, but for the rounding of one
/// division. A volume of zero or less counts as one here. `pairs` are the figures of all
/// entries with their volumes, and `figure` is the one of these for the item as a whole.
pub proof fn figures_times_volumes_are_the_sum(
    entries: &[ItemPriceInfo<i64>],
    price: ItemPriceInfo<i64>,
    pairs: Seq<(i64, i64)>,
    figure: i64,
)
    requires
        call_ensures(aggregate_rankless_item_price::<i64>, (entries,), Some(price)),
        pairs.len() == entries@.len(),
        forall|i: int| 0 <= i < pairs.len() ==> (#[trigger] pairs[i]).1 == entries@[i].volume,
        ({
            ||| figure == price.avg_price && forall|i: int|
                0 <= i < pairs.len() ==> (#[trigger] pairs[i]).0 == entries@[i].avg_price
            ||| figure == price.median && forall|i: int|
                0 <= i < pairs.len() ==> (#[trigger] pairs[i]).0 == entries@[i].median
            ||| figure == price.profit && forall|i: int|
                0 <= i < pairs.len() ==> (#[trigger] pairs[i]).0 == entries@[i].profit
            ||| figure == price.profit_margin && forall|i: int|
                0 <= i < pairs.len() ==> (#[trigger] pairs[i]).0 == entries@[i].profit_margin
            ||| figure == price.week_price_shift && forall|i: int|
                0 <= i < pairs.len() ==> (#[trigger] pairs[i]).0 == entries@[i].week_price_shift
        }),
        sums_fit(pairs),
    ensures
        ({
            let sum = exact_sum(pairs, pairs.len() as int);
            let weight = exact_weight(pairs, pairs.len() as int);
            &&& 0 <= sum ==> 0 <= sum - figure * weight < weight
            &&& sum < 0 ==> -weight < sum - figure * weight <= 0
        }),
{
    let all = views(entries@);
    assert(forall|i: int| 0 <= i < all.len() ==> all[i] == entries@[i]@);
    if forall|i: int| 0 <= i < pairs.len() ==> (#[trigger] pairs[i]).0 == entries@[i].avg_price {
        assert(pairs =~= weighted(all, |e: ItemPriceView<i64>| e.avg_price));
    }
    if forall|i: int| 0 <= i < pairs.len() ==> (#[trigger] pairs[i]).0 == entries@[i].median {
        assert(pairs =~= weighted(all, |e: ItemPriceView<i64>| e.median));
    }
    if forall|i: int| 0 <= i < pairs.len() ==> (#[trigger] pairs[i]).0 == entries@[i].profit {
        assert(pairs =~= weighted(all, |e: ItemPriceView<i64>| e.profit));
    }
    if forall|i: int|
        0 <= i < pairs.len() ==> (#[trigger] pairs[i]).0 == entries@[i].profit_margin {
        assert(pairs =~= weighted(all, |e: ItemPriceView<i64>| e.profit_margin));
    }
    if forall|i: int|
        0 <= i < pairs.len() ==> (#[trigger] pairs[i]).0 == entries@[i].week_price_shift {
        assert(pairs =~= weighted(all, |e: ItemPriceView<i64>| e.week_price_shift));
    }
    assert(price@.avg_price == price.avg_price && price@.median == price.median);
    lemma_mean_times_weights(pairs);
}

/// The volume for an item as a whole is the total over all ranks, and its extreme prices
/// are the extremes over all ranks.
pub proof fn volume_and_extremes_are_over_all_ranks<A: Amount>(
    entries: &[ItemPriceInfo<A>],
    price: ItemPriceInfo<A>,
    volumes: &[A],
    highs: &[A],
    lows: &[A],
    total: A,
    high: A,
    low: A,
)
    requires
        call_ensures(aggregate_rankless_item_price::<A>, (entries,), Some(price)),
        call_ensures(total_volume::<A>, (volumes,), total),
        call_ensures(highest_price::<A>, (highs,), high),
        call_ensures(lowest_price::<A>, (lows,), low),
        volumes@.len() == entries@.len(),
        highs@.len() == entries@.len(),
        lows@.len() == entries@.len(),
        forall|i: int| 0 <= i < entries@.len() ==> #[trigger] volumes@[i] == entries@[i].volume,
        forall|i: int| 0 <= i < entries@.len() ==> #[trigger] highs@[i] == entries@[i].max_price,
        forall|i: int| 0 <= i < entries@.len() ==> #[trigger] lows@[i] == entries@[i].min_price,
    ensures
        price.volume == total,
        price.max_price == high,
        price.min_price == low,
{
    let all = views(entries@);
    assert(forall|i: int| 0 <= i < all.len() ==> all[i] == entries@[i]@);
    assert(volumes@ =~= Seq::new(all.len(), |i: int| all[i].volume));
    assert(highs@ =~= Seq::new(all.len(), |i: int| all[i].max_price));
    assert(lows@ =~= Seq::new(all.len(), |i: int| all[i].min_price));
    assert(price@.volume == price.volume && price@.max_price == price.max_price);
}

/// Figures for an item as a whole have the names and the tax of the first entry, the sub
/// type that stands for all entries, and the name that goes with that sub type. There are
/// such figures wherever there is an entry, and only there.
pub proof fn names_come_from_the_first_rank<A: Amount>(
    entries: &[ItemPriceInfo<A>],
    r: Option<ItemPriceInfo<A>>,
    sub_type: Option<SubType>,
    wfm_url: &str,
    uuid: String,
)
    requires
        call_ensures(aggregate_rankless_item_price::<A>, (entries,), r),
        call_ensures(min_rank_sub_type::<A>, (entries,), sub_type),
        call_ensures(build_uuid, (wfm_url, &sub_type), uuid),
        entries@.len() > 0 ==> wfm_url@ == entries@[0].wfm_url@,
    ensures
        r is Some <==> entries@.len() > 0,
        r matches Some(price) ==> {
            &&& price.wfm_url@ == entries@[0].wfm_url@
            &&& price.wfm_id@ == entries@[0].wfm_id@
            &&& price.trading_tax == entries@[0].trading_tax
            &&& view_of(price.sub_type) == view_of(sub_type)
            &&& price.uuid@ == uuid@
        },
{
    if let Some(price) = r {
        assert(views(entries@)[0] == entries@[0]@);
        assert(price@.wfm_url == price.wfm_url@ && price@.uuid == price.uuid@);
    }
}

/// The moving average for an item as a whole is the average of those that there are,
/// weighted by the volumes of their entries, where it is not zero. Otherwise the average
/// price steps in, where that is above zero. `kept` are the entries with a moving average.
pub proof fn moving_average_is_over_those_there_are<A: Amount>(
    entries: &[ItemPriceInfo<A>],
    price: ItemPriceInfo<A>,
    kept: Seq<ItemPriceInfo<A>>,
    pairs: &[(A, A)],
    average: A,
)
    requires
        call_ensures(aggregate_rankless_item_price::<A>, (entries,), Some(price)),
        call_ensures(weighted_average::<A>, (pairs,), average),
        kept == entries@.filter(|e: ItemPriceInfo<A>| e.moving_avg is Some),
        pairs@.len() == kept.len(),
        forall|i: int|
            0 <= i < kept.len() ==> #[trigger] pairs@[i] == (kept[i].moving_avg->0, kept[i].volume),
    ensures
        !average.same(A::whole(0)) ==> price.moving_avg == Some(average),
        average.same(A::whole(0)) && A::whole(0).below(price.avg_price) ==> price.moving_avg == Some(
            price.avg_price,
        ),
        average.same(A::whole(0)) && !A::whole(0).below(price.avg_price) ==> price.moving_avg
            is None,
{
    lemma_moving_averages(entries@);
    assert(pairs@ =~= weighted_moving(views(entries@)));
    assert(price@.moving_avg == price.moving_avg && price@.avg_price == price.avg_price);
}

proof fn lemma_moving_averages<A: Amount>(entries: Seq<ItemPriceInfo<A>>)
    ensures
        ({
            let kept = entries.filter(|e: ItemPriceInfo<A>| e.moving_avg is Some);
            let pairs = weighted_moving(views(entries));
            &&& pairs.len() == kept.len()
            &&& forall|i: int|
                0 <= i < kept.len() ==> #[trigger] pairs[i] == (
                    kept[i].moving_avg->0,
                    kept[i].volume,
                )
        }),
    decreases entries.len(),
{
    reveal_with_fuel(Seq::filter, 1);
    if entries.len() > 0 {
        lemma_moving_averages(entries.drop_last());
        assert(views(entries).drop_last() =~= views(entries.drop_last()));
        assert(views(entries).last() == entries.last()@);
    }
}

/// The prices of an item are those with its identifier, in their order: one more price
/// comes last where it is about the item, and changes nothing where it is not.
pub proof fn prices_of_item_are_those_with_its_id<A: Amount>(
    prices: &[ItemPriceInfo<A>],
    more: &[ItemPriceInfo<A>],
    last: ItemPriceInfo<A>,
    wfm_id: &String,
    r: Vec<ItemPriceInfo<A>>,
    with_last: Vec<ItemPriceInfo<A>>,
)
    requires
        call_ensures(prices_of_item::<A>, (prices, wfm_id), r),
        call_ensures(prices_of_item::<A>, (more, wfm_id), with_last),
        more@ == prices@.push(last),
    ensures
        prices@.len() == 0 ==> r@.len() == 0,
        last.wfm_id@ == wfm_id@ ==> views(with_last@) == views(r@).push(last@),
        last.wfm_id@ != wfm_id@ ==> views(with_last@) == views(r@),
        views(r@) == prices_of(views(prices@), wfm_id@),
{
    reveal_with_fuel(Seq::filter, 1);
    assert(views(more@).drop_last() =~= views(prices@));
    assert(views(more@).last() == last@);
}

/// The price of an item whose rank is ignored is that of the item as a whole, made of all
/// its prices and of no others, whatever sub type is asked for. Where there is none, it is
/// a price of nothing but zeros.
pub proof fn rankless_items_have_the_price_of_the_whole<
    A: Amount,
    E,
    F: FnOnce(&String, Option<SubType>) -> Result<Option<ItemPriceInfo<A>>, E>,
>(
    item_info: &CacheTradableItem,
    sub_type: Option<SubType>,
    settings: &Settings,
    prices: &[ItemPriceInfo<A>],
    find_by: F,
    r: Result<ItemPriceInfo<A>, E>,
    found: Vec<ItemPriceInfo<A>>,
    own: &[ItemPriceInfo<A>],
    whole: Option<ItemPriceInfo<A>>,
)
    requires
        call_ensures(should_ignore_rank_for_low_rank_mod, (settings, item_info), true),
        call_ensures(
            get_effective_item_price::<A, E, F>,
            (item_info, sub_type, settings, prices, find_by),
            r,
        ),
        call_ensures(prices_of_item::<A>, (prices, &item_info.wfm_id), found),
        own@ == found@,
        call_ensures(aggregate_rankless_item_price::<A>, (own,), whole),
    ensures
        r is Ok,
        whole matches Some(price) ==> r->Ok_0@ == price@,
        whole is None ==> is_price_of_nothing(r->Ok_0),
{
}

/// Whether `price` has empty names and nothing but zeros.
pub open spec fn is_price_of_nothing<A: Amount>(price: ItemPriceInfo<A>) -> bool {
    &&& price.wfm_url@.len() == 0 && price.wfm_id@.len() == 0 && price.uuid@.len() == 0
    &&& price.volume == A::whole(0) && price.max_price == A::whole(0) && price.min_price
        == A::whole(0)
    &&& price.avg_price == A::whole(0) && price.moving_avg is None && price.median == A::whole(0)
    &&& price.profit == A::whole(0) && price.profit_margin == A::whole(0) && price.trading_tax == 0
    &&& price.week_price_shift == A::whole(0) && price.sub_type is None
}

/// The price of an item whose rank counts is what the search for its name and the sub type
/// finds, and its failure where it fails. What is known of other prices does not matter.
pub proof fn ranked_items_have_the_price_that_is_found<
    A: Amount,
    E,
    F: FnOnce(&String, Option<SubType>) -> Result<Option<ItemPriceInfo<A>>, E>,
>(
    item_info: &CacheTradableItem,
    sub_type: Option<SubType>,
    settings: &Settings,
    prices: &[ItemPriceInfo<A>],
    find_by: F,
    r: Result<ItemPriceInfo<A>, E>,
    found: Result<Option<ItemPriceInfo<A>>, E>,
)
    requires
        call_ensures(should_ignore_rank_for_low_rank_mod, (settings, item_info), false),
        call_ensures(
            get_effective_item_price::<A, E, F>,
            (item_info, sub_type, settings, prices, find_by),
            r,
        ),
        forall|other: Result<Option<ItemPriceInfo<A>>, E>| #[trigger]
            call_ensures(find_by, (&item_info.wfm_url_name, sub_type), other) ==> other == found,
    ensures
        found matches Err(e) ==> r == Err::<ItemPriceInfo<A>, E>(e),
        found matches Ok(Some(price)) ==> r == Ok::<ItemPriceInfo<A>, E>(price),
        found == Ok::<Option<ItemPriceInfo<A>>, E>(None) ==> r is Ok && is_price_of_nothing(
            r->Ok_0,
        ),
{
}

/// What a search found is the price, its failure is passed on, and where it found nothing
/// the price is one of nothing but zeros.
pub proof fn found_price_is_what_was_found<A: Amount, E>(
    found: Result<Option<ItemPriceInfo<A>>, E>,
    r: Result<ItemPriceInfo<A>, E>,
)
    requires
        call_ensures(found_price::<A, E>, (found,), r),
    ensures
        found matches Err(e) ==> r == Err::<ItemPriceInfo<A>, E>(e),
        found matches Ok(Some(price)) ==> r == Ok::<ItemPriceInfo<A>, E>(price),
        found == Ok::<Option<ItemPriceInfo<A>>, E>(None) ==> r is Ok && is_price_of_nothing(
            r->Ok_0,
        ),
{
}

/// Orders stay as they are where the rank is ignored, whatever sub type is asked for, and
/// are otherwise what the filter makes of them for that sub type, with its flag off.
pub proof fn orders_are_filtered_where_the_rank_counts<
    T,
    F: FnOnce(OrderList<T>, Option<SubType>, bool) -> OrderList<T>,
>(
    live_orders: &mut OrderList<T>,
    sub_type: Option<SubType>,
    item_info: &CacheTradableItem,
    settings: &Settings,
    filter_by_sub_type: F,
    ignored: bool,
)
    requires
        call_ensures(
            filter_market_orders_by_mode::<T, F>,
            (live_orders, sub_type, item_info, settings, filter_by_sub_type),
            (),
        ),
        call_ensures(should_ignore_rank_for_low_rank_mod, (settings, item_info), ignored),
    ensures
        ignored ==> *final(live_orders) == *old(live_orders),
        !ignored ==> call_ensures(
            filter_by_sub_type,
            (*old(live_orders), sub_type, false),
            *final(live_orders),
        ),
{
}

} // verus!
