//! Which items are worth watching.

use vstd::prelude::*;
use vstd::string::StringExecFns;

use crate::amount::{at_most, is_at_most, Amount};
use crate::model::{CacheTradableItem, ItemPriceInfo, ItemPriceView, StockItemSettings};
use crate::progress::{LogLevel, LogLine, LogLineView};
use crate::rankless::{
    aggregate_rankless_item_price, aggregated, is_low_rank_mod, low_rank_ids,
    low_rank_ids_are_those_of_low_rank_mods, low_rank_mod_ids, prices_of, prices_of_item,
    rankless_price_is_about_the_item,
};
use crate::text::{contains_text, followed_by, view_of, views};

verus! {

/// Whether a threshold is switched off, as every one below zero is.
pub fn is_disabled(value: i64) -> (r: bool)
    ensures
        r == (value <= -1),
{
    value <= -1
}

/// Whether `item` passes every threshold of `settings` that is not switched off.
pub open spec fn is_interesting<A: Amount>(
    settings: StockItemSettings,
    item: ItemPriceView<A>,
) -> bool {
    &&& settings.volume_threshold <= -1 || A::whole(settings.volume_threshold).below(item.volume)
    &&& settings.profit_threshold <= -1 || A::whole(settings.profit_threshold).below(item.profit)
    &&& settings.avg_price_cap <= -1 || at_most(item.avg_price, A::whole(settings.avg_price_cap))
    &&& settings.price_shift_threshold <= -1 || at_most(
        A::whole(settings.price_shift_threshold),
        item.week_price_shift,
    )
    &&& settings.trading_tax_cap <= -1 || item.trading_tax < settings.trading_tax_cap
    &&& settings.min_wtb_profit_margin <= -1 || at_most(
        A::whole(settings.min_wtb_profit_margin),
        item.profit_margin,
    )
}

/// Computes [`is_interesting`].
pub fn passes_thresholds<A: Amount>(
    settings: &StockItemSettings,
    item: &ItemPriceInfo<A>,
) -> (r: bool)
    ensures
        r == is_interesting(*settings, item@),
{
    (is_disabled(settings.volume_threshold) || A::from_int(settings.volume_threshold).less_than(
        item.volume,
    )) && (is_disabled(settings.profit_threshold) || A::from_int(
        settings.profit_threshold,
    ).less_than(item.profit)) && (is_disabled(settings.avg_price_cap) || is_at_most(
        item.avg_price,
        A::from_int(settings.avg_price_cap),
    )) && (is_disabled(settings.price_shift_threshold) || is_at_most(
        A::from_int(settings.price_shift_threshold),
        item.week_price_shift,
    )) && (is_disabled(settings.trading_tax_cap) || item.trading_tax < settings.trading_tax_cap)
        && (is_disabled(settings.min_wtb_profit_margin) || is_at_most(
        A::from_int(settings.min_wtb_profit_margin),
        item.profit_margin,
    ))
}

/// Thresholds that are all switched off let every item pass.
pub proof fn disabled_thresholds_pass_everything<A: Amount>(
    settings: StockItemSettings,
    item: ItemPriceView<A>,
)
    requires
        settings.volume_threshold <= -1,
        settings.profit_threshold <= -1,
        settings.avg_price_cap <= -1,
        settings.price_shift_threshold <= -1,
        settings.trading_tax_cap <= -1,
        settings.min_wtb_profit_margin <= -1,
    ensures
        is_interesting(settings, item),
{
}

/// The text of `flag`.
pub open spec fn flag_text(flag: bool) -> Seq<char> {
    if flag {
        "true"@
    } else {
        "false"@
    }
}

/// The key under which interesting items are remembered: `settings_id`, which tells
/// settings apart, and whether low rank mods are rankless.
pub fn interesting_items_key(settings_id: &str, low_rank_mods_rankless_mode: bool) -> (r: String)
    ensures
        r@ == settings_id@ + ";low_rank_mods_rankless_mode:"@ + flag_text(
            low_rank_mods_rankless_mode,
        ),
{
    let mut key: String = settings_id.to_owned();
    key.append(";low_rank_mods_rankless_mode:");
    key.append(
        if low_rank_mods_rankless_mode {
            "true"
        } else {
            "false"
        },
    );
    key
}

/// Those of `prices` that are not about one of the items `ids`.
pub open spec fn passed_through<A: Amount>(
    prices: Seq<ItemPriceView<A>>,
    ids: Seq<Seq<char>>,
) -> Seq<ItemPriceView<A>> {
    prices.filter(|price: ItemPriceView<A>| !ids.contains(price.wfm_id))
}

/// Those of the items `ids` that `prices` are about, each once, in the order in
/// which they come up.
pub open spec fn grouped_ids<A: Amount>(
    prices: Seq<ItemPriceView<A>>,
    ids: Seq<Seq<char>>,
) -> Seq<Seq<char>>
    decreases prices.len(),
{
    if prices.len() == 0 {
        seq![]
    } else {
        let before = grouped_ids(prices.drop_last(), ids);
        let last = prices.last();
        if ids.contains(last.wfm_id) && !before.contains(last.wfm_id) {
            before.push(last.wfm_id)
        } else {
            before
        }
    }
}

/// `prices`, but with one price for each of the items `ids` as a whole in place of
/// one for each of its ranks. Those come last.
pub open spec fn with_groups_aggregated<A: Amount>(
    prices: Seq<ItemPriceView<A>>,
    ids: Seq<Seq<char>>,
) -> Seq<ItemPriceView<A>> {
    let groups = grouped_ids(prices, ids);
    passed_through(prices, ids) + Seq::new(
        groups.len(),
        |i: int| aggregated(prices_of(prices, groups[i])),
    )
}

/// Every group that comes up is about one of `ids`, comes up once, and is not empty.
proof fn lemma_grouped_ids<A: Amount>(prices: Seq<ItemPriceView<A>>, ids: Seq<Seq<char>>)
    ensures
        grouped_ids(prices, ids).no_duplicates(),
        forall|id: Seq<char>| #[trigger]
            grouped_ids(prices, ids).contains(id) <==> ids.contains(id) && prices_of(
                prices,
                id,
            ).len() > 0,
    decreases prices.len(),
{
    reveal_with_fuel(Seq::filter, 1);
    if prices.len() > 0 {
        let rest = prices.drop_last();
        let before = grouped_ids(rest, ids);
        let after = grouped_ids(prices, ids);
        let last = prices.last().wfm_id;
        lemma_grouped_ids(rest, ids);
        assert forall|id: Seq<char>| #[trigger] after.contains(id) <==> ids.contains(id)
            && prices_of(prices, id).len() > 0 by {
            assert(prices_of(prices, id).len() == prices_of(rest, id).len() + if id == last {
                1int
            } else {
                0
            });
            if after.len() > before.len() {
                assert(after == before.push(last));
                assert(after[before.len() as int] == last);
                if before.contains(id) {
                    let k = choose|k: int| 0 <= k < before.len() && before[k] == id;
                    assert(after[k] == id);
                }
            }
        }
    }
}

/// Of the prices that are passed through, those of an item are all that there were,
/// or none where the item is one of `ids`.
proof fn lemma_passed_through_of_item<A: Amount>(
    prices: Seq<ItemPriceView<A>>,
    ids: Seq<Seq<char>>,
    id: Seq<char>,
)
    ensures
        prices_of(passed_through(prices, ids), id) == if ids.contains(id) {
            seq![]
        } else {
            prices_of(prices, id)
        },
    decreases prices.len(),
{
    reveal_with_fuel(Seq::filter, 1);
    if prices.len() > 0 {
        let rest = prices.drop_last();
        lemma_passed_through_of_item(rest, ids, id);
        let before = passed_through(rest, ids);
        if !ids.contains(prices.last().wfm_id) {
            assert(passed_through(prices, ids) == before.push(prices.last()));
            assert(before.push(prices.last()).drop_last() =~= before);
        }
    }
}

/// Of prices that are each about another item, one at most is about `id`.
proof fn lemma_one_price_of_item<A: Amount>(
    prices: Seq<ItemPriceView<A>>,
    ids: Seq<Seq<char>>,
    at: int,
    id: Seq<char>,
)
    requires
        prices.len() == ids.len(),
        ids.no_duplicates(),
        forall|i: int| 0 <= i < ids.len() ==> #[trigger] prices[i].wfm_id == ids[i],
        0 <= at < ids.len() ==> ids[at] == id,
        !(0 <= at < ids.len()) ==> !ids.contains(id),
    ensures
        prices_of(prices, id) == if 0 <= at < ids.len() {
            seq![prices[at]]
        } else {
            seq![]
        },
    decreases prices.len(),
{
    reveal_with_fuel(Seq::filter, 1);
    if prices.len() > 0 {
        let last = prices.len() - 1;
        let rest = prices.drop_last();
        let before = ids.drop_last();
        assert(prices[last].wfm_id == ids[last]);
        assert forall|i: int| 0 <= i < before.len() implies #[trigger] rest[i].wfm_id
            == before[i] by {
            assert(prices[i].wfm_id == ids[i]);
        }
        if before.contains(id) {
            let k = choose|k: int| 0 <= k < before.len() && before[k] == id;
            assert(ids[k] == id);
            assert(ids.contains(id));
        }
        lemma_one_price_of_item(rest, before, at, id);
        assert(prices_of(prices, id) =~= if 0 <= at < ids.len() {
            seq![prices[at]]
        } else {
            seq![]
        });
    } else {
        assert(prices_of(prices, id) =~= seq![]);
    }
}

/// With the groups aggregated, each of the items `ids` has one price, for the item
/// as a whole, or none where it had none, and every other item has the prices it
/// had.
pub proof fn aggregation_leaves_one_price_for_each_group<A: Amount>(
    prices: Seq<ItemPriceView<A>>,
    ids: Seq<Seq<char>>,
    id: Seq<char>,
)
    ensures
        prices_of(with_groups_aggregated(prices, ids), id) == if !ids.contains(id) {
            prices_of(prices, id)
        } else if prices_of(prices, id).len() == 0 {
            seq![]
        } else {
            seq![aggregated(prices_of(prices, id))]
        },
{
    let groups = grouped_ids(prices, ids);
    let passed = passed_through(prices, ids);
    let wholes = Seq::new(groups.len(), |i: int| aggregated(prices_of(prices, groups[i])));
    let about = |price: ItemPriceView<A>| price.wfm_id == id;
    lemma_grouped_ids(prices, ids);
    lemma_passed_through_of_item(prices, ids, id);
    assert forall|i: int| 0 <= i < groups.len() implies #[trigger] wholes[i].wfm_id
        == groups[i] by {
        assert(groups.contains(groups[i]));
        rankless_price_is_about_the_item(prices, groups[i]);
    }
    let at = if groups.contains(id) {
        choose|k: int| 0 <= k < groups.len() && groups[k] == id
    } else {
        -1
    };
    lemma_one_price_of_item(wholes, groups, at, id);
    Seq::filter_distributes_over_add(passed, wholes, about);
    assert(prices_of(passed, id) + prices_of(wholes, id) =~= if !ids.contains(id) {
        prices_of(prices, id)
    } else if prices_of(prices, id).len() == 0 {
        seq![]
    } else {
        seq![aggregated(prices_of(prices, id))]
    });
}

/// `prices`, but with one price for each of the items `ids` as a whole in place of
/// one for each of its ranks.
pub fn aggregate_groups<A: Amount>(
    prices: Vec<ItemPriceInfo<A>>,
    ids: &Vec<String>,
) -> (r: Vec<ItemPriceInfo<A>>)
    ensures
        views(r@) == with_groups_aggregated(views(prices@), views(ids@)),
{
    let ghost all = views(prices@);
    let ghost keys = views(ids@);
    let ghost outside = |price: ItemPriceView<A>| !keys.contains(price.wfm_id);
    let mut passthrough: Vec<ItemPriceInfo<A>> = Vec::new();
    let mut groups: Vec<String> = Vec::new();
    reveal_with_fuel(Seq::filter, 1);
    assert(views(passthrough@) =~= all.take(0).filter(outside));
    assert(views(groups@) =~= grouped_ids(all.take(0), keys));
    let mut i: usize = 0;
    while i < prices.len()
        invariant
            i <= prices.len(),
            all == views(prices@),
            keys == views(ids@),
            outside == |price: ItemPriceView<A>| !keys.contains(price.wfm_id),
            views(passthrough@) == all.take(i as int).filter(outside),
            views(groups@) == grouped_ids(all.take(i as int), keys),
        decreases prices.len() - i,
    {
        reveal_with_fuel(Seq::filter, 1);
        let price: &ItemPriceInfo<A> = &prices[i];
        assert(all[i as int] == price@);
        assert(all.take(i + 1).drop_last() =~= all.take(i as int));
        if contains_text(ids, &price.wfm_id) {
            if !contains_text(&groups, &price.wfm_id) {
                let ghost before = groups@;
                groups.push(price.wfm_id.clone());
                assert(views(groups@) =~= views(before).push(price.wfm_id@));
            }
        } else {
            let ghost before = passthrough@;
            passthrough.push(price.clone());
            assert(views(passthrough@) =~= views(before).push(price@));
        }
        i = i + 1;
    }
    assert(all.take(i as int) =~= all);
    let ghost passed = views(passthrough@);
    let ghost group_keys = views(groups@);
    proof {
        lemma_grouped_ids(all, keys);
    }
    let mut k: usize = 0;
    while k < groups.len()
        invariant
            k <= groups.len(),
            all == views(prices@),
            group_keys == views(groups@),
            group_keys == grouped_ids(all, keys),
            forall|id: Seq<char>| #[trigger]
                group_keys.contains(id) ==> prices_of(all, id).len() > 0,
            views(passthrough@) =~= passed + Seq::new(
                k as nat,
                |j: int| aggregated(prices_of(all, group_keys[j])),
            ),
        decreases groups.len() - k,
    {
        assert(group_keys[k as int] == groups[k as int]@);
        assert(group_keys.contains(group_keys[k as int]));
        let group: Vec<ItemPriceInfo<A>> = prices_of_item(prices.as_slice(), &groups[k]);
        if let Some(aggregate) = aggregate_rankless_item_price(group.as_slice()) {
            let ghost before = passthrough@;
            passthrough.push(aggregate);
            assert(views(passthrough@) =~= views(before).push(aggregate@));
        }
        k = k + 1;
    }
    assert(views(passthrough@) =~= with_groups_aggregated(all, keys));
    passthrough
}

/// The prices to choose from: one for each item and rank, or, where low rank mods
/// are rankless, one for each low rank mod of `tradable_items` as a whole in place
/// of those for its ranks.
pub open spec fn base_prices<A: Amount>(
    low_rank_mods_rankless_mode: bool,
    tradable_items: Seq<CacheTradableItem>,
    prices: Seq<ItemPriceView<A>>,
) -> Seq<ItemPriceView<A>> {
    if low_rank_mods_rankless_mode {
        with_groups_aggregated(prices, low_rank_ids(tradable_items))
    } else {
        prices
    }
}

/// Leaving prices out leaves no more of an item than there were.
proof fn lemma_filter_leaves_no_more<A: Amount>(
    prices: Seq<ItemPriceView<A>>,
    keep: spec_fn(ItemPriceView<A>) -> bool,
    id: Seq<char>,
)
    ensures
        prices_of(prices.filter(keep), id).len() <= prices_of(prices, id).len(),
    decreases prices.len(),
{
    reveal_with_fuel(Seq::filter, 1);
    if prices.len() > 0 {
        let before = prices.drop_last().filter(keep);
        lemma_filter_leaves_no_more(prices.drop_last(), keep, id);
        if keep(prices.last()) {
            assert(before.push(prices.last()).drop_last() =~= before);
        }
    }
}

/// Where low rank mods are rankless, each of them is interesting as a whole, if at
/// all: it never comes up twice.
pub proof fn low_rank_mods_come_up_once<A: Amount>(
    settings: StockItemSettings,
    tradable_items: Seq<CacheTradableItem>,
    prices: Seq<ItemPriceView<A>>,
    item: int,
)
    requires
        0 <= item < tradable_items.len(),
        is_low_rank_mod(tradable_items[item]),
    ensures
        prices_of(
            base_prices(true, tradable_items, prices).filter(
                |price: ItemPriceView<A>| is_interesting(settings, price),
            ),
            tradable_items[item].wfm_id@,
        ).len() <= 1,
{
    let id = tradable_items[item].wfm_id@;
    let base = base_prices(true, tradable_items, prices);
    low_rank_ids_are_those_of_low_rank_mods(tradable_items);
    assert(low_rank_ids(tradable_items).contains(id));
    aggregation_leaves_one_price_for_each_group(prices, low_rank_ids(tradable_items), id);
    lemma_filter_leaves_no_more(
        base,
        |price: ItemPriceView<A>| is_interesting(settings, price),
        id,
    );
}

/// Of items that all satisfy `wide` where they satisfy `narrow`, keeping those that
/// satisfy `narrow` gives the same with `wide` asked first or not.
proof fn lemma_filter_in_two_steps<A: Amount>(
    prices: Seq<ItemPriceView<A>>,
    wide: spec_fn(ItemPriceView<A>) -> bool,
    narrow: spec_fn(ItemPriceView<A>) -> bool,
)
    requires
        forall|price: ItemPriceView<A>| #[trigger] narrow(price) ==> wide(price),
    ensures
        prices.filter(narrow) == prices.filter(wide).filter(narrow),
    decreases prices.len(),
{
    reveal_with_fuel(Seq::filter, 1);
    if prices.len() > 0 {
        let rest = prices.drop_last();
        let before = rest.filter(wide);
        lemma_filter_in_two_steps(rest, wide, narrow);
        if wide(prices.last()) {
            assert(before.push(prices.last()).drop_last() =~= before);
        }
    }
}

/// Raising the volume threshold never adds an item, and neither does switching it on:
/// what is interesting with the higher threshold is what it leaves of the items that
/// are interesting with the lower one.
pub proof fn raising_the_volume_threshold_adds_nothing<A: Amount>(
    lower: StockItemSettings,
    higher: StockItemSettings,
    low_rank_mods_rankless_mode: bool,
    tradable_items: Seq<CacheTradableItem>,
    prices: Seq<ItemPriceView<A>>,
)
    requires
        higher == (StockItemSettings { volume_threshold: higher.volume_threshold, ..lower }),
        lower.volume_threshold <= higher.volume_threshold,
    ensures
        ({
            let base = base_prices(low_rank_mods_rankless_mode, tradable_items, prices);
            let with_lower = base.filter(|item: ItemPriceView<A>| is_interesting(lower, item));
            let with_higher = base.filter(|item: ItemPriceView<A>| is_interesting(higher, item));
            &&& with_higher == with_lower.filter(
                |item: ItemPriceView<A>| is_interesting(higher, item),
            )
            &&& forall|item: ItemPriceView<A>| #[trigger]
                with_higher.contains(item) ==> with_lower.contains(item)
        }),
{
    let base = base_prices(low_rank_mods_rankless_mode, tradable_items, prices);
    let wide = |item: ItemPriceView<A>| is_interesting(lower, item);
    let narrow = |item: ItemPriceView<A>| is_interesting(higher, item);
    assert forall|item: ItemPriceView<A>| #[trigger] narrow(item) implies wide(item) by {
        if 0 <= lower.volume_threshold {
            A::above_is_above_less(
                lower.volume_threshold,
                higher.volume_threshold,
                item.volume,
            );
        }
    }
    lemma_filter_in_two_steps(base, wide, narrow);
    assert forall|item: ItemPriceView<A>| #[trigger]
        base.filter(narrow).contains(item) implies base.filter(wide).contains(item) by {
        base.filter(wide).lemma_filter_contains_rev(narrow, item);
    }
}

/// The items worth watching: what was `remembered` for these settings, or else
/// those of the [`base_prices`] that pass the thresholds of `settings`.
pub fn get_interesting_items<A: Amount>(
    settings: &StockItemSettings,
    low_rank_mods_rankless_mode: bool,
    remembered: Option<Vec<ItemPriceInfo<A>>>,
    tradable_items: &[CacheTradableItem],
    prices: Vec<ItemPriceInfo<A>>,
) -> (r: Vec<ItemPriceInfo<A>>)
    ensures
        remembered matches Some(items) ==> r == items,
        remembered is None ==> views(r@) == base_prices(
            low_rank_mods_rankless_mode,
            tradable_items@,
            views(prices@),
        ).filter(|item: ItemPriceView<A>| is_interesting(*settings, item)),
{
    if let Some(items) = remembered {
        return items;
    }
    let ghost wanted = |item: ItemPriceView<A>| is_interesting(*settings, item);
    let base: Vec<ItemPriceInfo<A>> = if low_rank_mods_rankless_mode {
        let ids: Vec<String> = low_rank_mod_ids(low_rank_mods_rankless_mode, tradable_items);
        aggregate_groups(prices, &ids)
    } else {
        prices
    };
    let ghost all = views(base@);
    let mut items: Vec<ItemPriceInfo<A>> = Vec::new();
    reveal_with_fuel(Seq::filter, 1);
    assert(views(items@) =~= all.take(0).filter(wanted));
    let mut i: usize = 0;
    while i < base.len()
        invariant
            i <= base.len(),
            all == views(base@),
            wanted == |item: ItemPriceView<A>| is_interesting(*settings, item),
            views(items@) == all.take(i as int).filter(wanted),
        decreases base.len() - i,
    {
        reveal_with_fuel(Seq::filter, 1);
        let item: &ItemPriceInfo<A> = &base[i];
        assert(all[i as int] == item@);
        assert(all.take(i + 1).drop_last() =~= all.take(i as int));
        if passes_thresholds(settings, item) {
            let ghost before = items@;
            items.push(item.clone());
            assert(views(items@) =~= views(before).push(item@));
        }
        i = i + 1;
    }
    assert(all.take(i as int) =~= all);
    items
}

/// What to log where nothing is worth watching by the settings that `key` tells: that
/// this is so, unless it was remembered.
pub fn nothing_interesting_notice<A: Amount>(
    remembered: bool,
    items: &Vec<ItemPriceInfo<A>>,
    key: &str,
) -> (r: Option<LogLine>)
    ensures
        view_of(r) == if !remembered && items@.len() == 0 {
            Some(
                LogLineView {
                    level: LogLevel::Info,
                    component: "LiveScraper:Helpers:GetInterestingItems"@,
                    message: "No interesting items found for settings: "@ + key@,
                },
            )
        } else {
            None
        },
{
    if !remembered && items.len() == 0 {
        Some(
            LogLine {
                level: LogLevel::Info,
                component: "LiveScraper:Helpers:GetInterestingItems".to_owned(),
                message: followed_by("No interesting items found for settings: ", key),
            },
        )
    } else {
        None
    }
}

/// Keeping what satisfies `both` is keeping what satisfies `first` and then what satisfies
/// `second` of it.
proof fn lemma_filter_by_both<A: Amount>(
    prices: Seq<ItemPriceView<A>>,
    first: spec_fn(ItemPriceView<A>) -> bool,
    second: spec_fn(ItemPriceView<A>) -> bool,
    both: spec_fn(ItemPriceView<A>) -> bool,
)
    requires
        forall|price: ItemPriceView<A>| #[trigger]
            both(price) <==> first(price) && second(price),
    ensures
        prices.filter(both) == prices.filter(first).filter(second),
    decreases prices.len(),
{
    reveal_with_fuel(Seq::filter, 1);
    if prices.len() > 0 {
        let rest = prices.drop_last();
        let before = rest.filter(first);
        lemma_filter_by_both(rest, first, second, both);
        assert(both(prices.last()) <==> first(prices.last()) && second(prices.last()));
        if first(prices.last()) {
            assert(before.push(prices.last()).drop_last() =~= before);
        }
    }
}

/// Each threshold counts by itself, whatever the others are: switching one on takes away
/// exactly the items that miss it, and leaves the others in their order.
pub proof fn each_threshold_takes_away_what_misses_it<A: Amount>(
    off: &StockItemSettings,
    on: &StockItemSettings,
    low_rank_mods_rankless_mode: bool,
    tradable_items: &[CacheTradableItem],
    prices: Vec<ItemPriceInfo<A>>,
    with_off: Vec<ItemPriceInfo<A>>,
    with_on: Vec<ItemPriceInfo<A>>,
)
    requires
        call_ensures(
            get_interesting_items::<A>,
            (off, low_rank_mods_rankless_mode, None, tradable_items, prices),
            with_off,
        ),
        call_ensures(
            get_interesting_items::<A>,
            (on, low_rank_mods_rankless_mode, None, tradable_items, prices),
            with_on,
        ),
    ensures
        on.volume_threshold >= 0 && off.volume_threshold < 0 && *on == (StockItemSettings {
            volume_threshold: on.volume_threshold,
            ..*off
        }) ==> views(with_on@) == views(with_off@).filter(
            |item: ItemPriceView<A>| A::whole(on.volume_threshold).below(item.volume),
        ),
        on.profit_threshold >= 0 && off.profit_threshold < 0 && *on == (StockItemSettings {
            profit_threshold: on.profit_threshold,
            ..*off
        }) ==> views(with_on@) == views(with_off@).filter(
            |item: ItemPriceView<A>| A::whole(on.profit_threshold).below(item.profit),
        ),
        on.avg_price_cap >= 0 && off.avg_price_cap < 0 && *on == (StockItemSettings {
            avg_price_cap: on.avg_price_cap,
            ..*off
        }) ==> views(with_on@) == views(with_off@).filter(
            |item: ItemPriceView<A>| item.avg_price.below(A::whole(on.avg_price_cap)) || item.avg_price.same(
                A::whole(on.avg_price_cap),
            ),
        ),
        on.price_shift_threshold >= 0 && off.price_shift_threshold < 0 && *on == (StockItemSettings {
            price_shift_threshold: on.price_shift_threshold,
            ..*off
        }) ==> views(with_on@) == views(with_off@).filter(
            |item: ItemPriceView<A>| A::whole(on.price_shift_threshold).below(item.week_price_shift)
                || A::whole(on.price_shift_threshold).same(item.week_price_shift),
        ),
        on.trading_tax_cap >= 0 && off.trading_tax_cap < 0 && *on == (StockItemSettings {
            trading_tax_cap: on.trading_tax_cap,
            ..*off
        }) ==> views(with_on@) == views(with_off@).filter(
            |item: ItemPriceView<A>| item.trading_tax < on.trading_tax_cap,
        ),
        on.min_wtb_profit_margin >= 0 && off.min_wtb_profit_margin < 0 && *on == (StockItemSettings {
            min_wtb_profit_margin: on.min_wtb_profit_margin,
            ..*off
        }) ==> views(with_on@) == views(with_off@).filter(
            |item: ItemPriceView<A>| A::whole(on.min_wtb_profit_margin).below(item.profit_margin)
                || A::whole(on.min_wtb_profit_margin).same(item.profit_margin),
        ),
{
    let base = base_prices(low_rank_mods_rankless_mode, tradable_items@, views(prices@));
    let wide = |item: ItemPriceView<A>| is_interesting(*off, item);
    let narrow = |item: ItemPriceView<A>| is_interesting(*on, item);
    assert(views(with_off@) == base.filter(wide) && views(with_on@) == base.filter(narrow));
    if on.volume_threshold >= 0 && off.volume_threshold < 0 && *on == (StockItemSettings {
        volume_threshold: on.volume_threshold,
        ..*off
    }) {
        let extra = |item: ItemPriceView<A>| A::whole(on.volume_threshold).below(item.volume);
        lemma_filter_by_both(base, wide, extra, narrow);
    }
    if on.profit_threshold >= 0 && off.profit_threshold < 0 && *on == (StockItemSettings {
        profit_threshold: on.profit_threshold,
        ..*off
    }) {
        let extra = |item: ItemPriceView<A>| A::whole(on.profit_threshold).below(item.profit);
        lemma_filter_by_both(base, wide, extra, narrow);
    }
    if on.avg_price_cap >= 0 && off.avg_price_cap < 0 && *on == (StockItemSettings {
        avg_price_cap: on.avg_price_cap,
        ..*off
    }) {
        let extra = |item: ItemPriceView<A>| item.avg_price.below(A::whole(on.avg_price_cap)) || item.avg_price.same(
                A::whole(on.avg_price_cap),
            );
        lemma_filter_by_both(base, wide, extra, narrow);
    }
    if on.price_shift_threshold >= 0 && off.price_shift_threshold < 0 && *on == (StockItemSettings {
        price_shift_threshold: on.price_shift_threshold,
        ..*off
    }) {
        let extra = |item: ItemPriceView<A>| A::whole(on.price_shift_threshold).below(item.week_price_shift)
                || A::whole(on.price_shift_threshold).same(item.week_price_shift);
        lemma_filter_by_both(base, wide, extra, narrow);
    }
    if on.trading_tax_cap >= 0 && off.trading_tax_cap < 0 && *on == (StockItemSettings {
        trading_tax_cap: on.trading_tax_cap,
        ..*off
    }) {
        let extra = |item: ItemPriceView<A>| item.trading_tax < on.trading_tax_cap;
        lemma_filter_by_both(base, wide, extra, narrow);
    }
    if on.min_wtb_profit_margin >= 0 && off.min_wtb_profit_margin < 0 && *on == (StockItemSettings {
        min_wtb_profit_margin: on.min_wtb_profit_margin,
        ..*off
    }) {
        let extra = |item: ItemPriceView<A>| A::whole(on.min_wtb_profit_margin).below(item.profit_margin)
                || A::whole(on.min_wtb_profit_margin).same(item.profit_margin);
        lemma_filter_by_both(base, wide, extra, narrow);
    }
}

/// Every listed item holds every threshold that is switched on, and every price to choose
/// from that holds them all is listed.
pub proof fn listed_items_hold_every_threshold<A: Amount>(
    settings: &StockItemSettings,
    low_rank_mods_rankless_mode: bool,
    tradable_items: &[CacheTradableItem],
    prices: Vec<ItemPriceInfo<A>>,
    r: Vec<ItemPriceInfo<A>>,
    item: ItemPriceView<A>,
)
    requires
        call_ensures(
            get_interesting_items::<A>,
            (settings, low_rank_mods_rankless_mode, None, tradable_items, prices),
            r,
        ),
    ensures
        views(r@).contains(item) ==> {
            &&& base_prices(low_rank_mods_rankless_mode, tradable_items@, views(prices@)).contains(
                item,
            )
            &&& 0 <= settings.volume_threshold ==> A::whole(settings.volume_threshold).below(
                item.volume,
            )
            &&& 0 <= settings.profit_threshold ==> A::whole(settings.profit_threshold).below(
                item.profit,
            )
            &&& 0 <= settings.avg_price_cap ==> item.avg_price.below(
                A::whole(settings.avg_price_cap),
            ) || item.avg_price.same(A::whole(settings.avg_price_cap))
            &&& 0 <= settings.price_shift_threshold ==> A::whole(
                settings.price_shift_threshold,
            ).below(item.week_price_shift) || A::whole(settings.price_shift_threshold).same(
                item.week_price_shift,
            )
            &&& 0 <= settings.trading_tax_cap ==> item.trading_tax < settings.trading_tax_cap
            &&& 0 <= settings.min_wtb_profit_margin ==> A::whole(
                settings.min_wtb_profit_margin,
            ).below(item.profit_margin) || A::whole(settings.min_wtb_profit_margin).same(
                item.profit_margin,
            )
        },
        base_prices(low_rank_mods_rankless_mode, tradable_items@, views(prices@)).contains(item)
            && !views(r@).contains(item) ==> {
            ||| 0 <= settings.volume_threshold && !A::whole(settings.volume_threshold).below(
                item.volume,
            )
            ||| 0 <= settings.profit_threshold && !A::whole(settings.profit_threshold).below(
                item.profit,
            )
            ||| 0 <= settings.avg_price_cap && !item.avg_price.below(
                A::whole(settings.avg_price_cap),
            ) && !item.avg_price.same(A::whole(settings.avg_price_cap))
            ||| 0 <= settings.price_shift_threshold && !A::whole(
                settings.price_shift_threshold,
            ).below(item.week_price_shift) && !A::whole(settings.price_shift_threshold).same(
                item.week_price_shift,
            )
            ||| 0 <= settings.trading_tax_cap && item.trading_tax >= settings.trading_tax_cap
            ||| 0 <= settings.min_wtb_profit_margin && !A::whole(
                settings.min_wtb_profit_margin,
            ).below(item.profit_margin) && !A::whole(settings.min_wtb_profit_margin).same(
                item.profit_margin,
            )
        },
{
    let base = base_prices(low_rank_mods_rankless_mode, tradable_items@, views(prices@));
    let wanted = |item: ItemPriceView<A>| is_interesting(*settings, item);
    assert(views(r@) == base.filter(wanted));
    if base.filter(wanted).contains(item) {
        let i = choose|i: int| 0 <= i < base.filter(wanted).len() && base.filter(wanted)[i] == item;
        base.lemma_filter_pred(wanted, i);
        base.lemma_filter_contains_rev(wanted, item);
    }
    if base.contains(item) && wanted(item) {
        let i = choose|i: int| 0 <= i < base.len() && base[i] == item;
        base.lemma_filter_contains(wanted, i);
    }
}

/// With every threshold switched off all prices to choose from are listed: those that were
/// given, or, where low rank mods are rankless, these with the low rank mods of the
/// catalogue as a whole. How many to buy does not matter.
pub proof fn without_thresholds_everything_is_listed<A: Amount>(
    settings: &StockItemSettings,
    low_rank_mods_rankless_mode: bool,
    tradable_items: &[CacheTradableItem],
    prices: Vec<ItemPriceInfo<A>>,
    r: Vec<ItemPriceInfo<A>>,
    ids: Vec<String>,
    grouped: Vec<ItemPriceInfo<A>>,
)
    requires
        call_ensures(
            get_interesting_items::<A>,
            (settings, low_rank_mods_rankless_mode, None, tradable_items, prices),
            r,
        ),
        call_ensures(low_rank_mod_ids, (true, tradable_items), ids),
        call_ensures(aggregate_groups::<A>, (prices, &ids), grouped),
        settings.volume_threshold < 0,
        settings.profit_threshold < 0,
        settings.avg_price_cap < 0,
        settings.price_shift_threshold < 0,
        settings.trading_tax_cap < 0,
        settings.min_wtb_profit_margin < 0,
    ensures
        !low_rank_mods_rankless_mode ==> views(r@) == views(prices@),
        low_rank_mods_rankless_mode ==> views(r@) == views(grouped@),
{
    let base = base_prices(low_rank_mods_rankless_mode, tradable_items@, views(prices@));
    let wanted = |item: ItemPriceView<A>| is_interesting(*settings, item);
    assert(views(r@) == base.filter(wanted));
    lemma_filter_keeps_all(base, wanted);
}

proof fn lemma_filter_keeps_all<A: Amount>(
    prices: Seq<ItemPriceView<A>>,
    keep: spec_fn(ItemPriceView<A>) -> bool,
)
    requires
        forall|price: ItemPriceView<A>| #[trigger] keep(price),
    ensures
        prices.filter(keep) == prices,
    decreases prices.len(),
{
    reveal_with_fuel(Seq::filter, 1);
    if prices.len() > 0 {
        lemma_filter_keeps_all(prices.drop_last(), keep);
        assert(keep(prices.last()));
        assert(prices.drop_last().push(prices.last()) =~= prices);
    } else {
        assert(prices.filter(keep) =~= prices);
    }
}

/// What was remembered is listed as it is, whatever the settings and the prices are.
pub proof fn remembered_items_are_listed_as_they_are<A: Amount>(
    settings: &StockItemSettings,
    low_rank_mods_rankless_mode: bool,
    items: Vec<ItemPriceInfo<A>>,
    tradable_items: &[CacheTradableItem],
    prices: Vec<ItemPriceInfo<A>>,
    r: Vec<ItemPriceInfo<A>>,
)
    requires
        call_ensures(
            get_interesting_items::<A>,
            (settings, low_rank_mods_rankless_mode, Some(items), tradable_items, prices),
            r,
        ),
    ensures
        r == items,
{
}

/// An item passes exactly where it misses no threshold that is switched on.
pub proof fn items_pass_where_they_miss_no_threshold<A: Amount>(
    settings: &StockItemSettings,
    item: &ItemPriceInfo<A>,
    r: bool,
)
    requires
        call_ensures(passes_thresholds::<A>, (settings, item), r),
    ensures
        0 <= settings.volume_threshold && !A::whole(settings.volume_threshold).below(item.volume)
            ==> !r,
        0 <= settings.profit_threshold && !A::whole(settings.profit_threshold).below(item.profit)
            ==> !r,
        0 <= settings.avg_price_cap && !item.avg_price.below(A::whole(settings.avg_price_cap))
            && !item.avg_price.same(A::whole(settings.avg_price_cap)) ==> !r,
        0 <= settings.price_shift_threshold && !A::whole(settings.price_shift_threshold).below(
            item.week_price_shift,
        ) && !A::whole(settings.price_shift_threshold).same(item.week_price_shift) ==> !r,
        0 <= settings.trading_tax_cap && item.trading_tax >= settings.trading_tax_cap ==> !r,
        0 <= settings.min_wtb_profit_margin && !A::whole(settings.min_wtb_profit_margin).below(
            item.profit_margin,
        ) && !A::whole(settings.min_wtb_profit_margin).same(item.profit_margin) ==> !r,
        !r ==> {
            ||| 0 <= settings.volume_threshold && !A::whole(settings.volume_threshold).below(
                item.volume,
            )
            ||| 0 <= settings.profit_threshold && !A::whole(settings.profit_threshold).below(
                item.profit,
            )
            ||| 0 <= settings.avg_price_cap && !item.avg_price.below(
                A::whole(settings.avg_price_cap),
            ) && !item.avg_price.same(A::whole(settings.avg_price_cap))
            ||| 0 <= settings.price_shift_threshold && !A::whole(
                settings.price_shift_threshold,
            ).below(item.week_price_shift) && !A::whole(settings.price_shift_threshold).same(
                item.week_price_shift,
            )
            ||| 0 <= settings.trading_tax_cap && item.trading_tax >= settings.trading_tax_cap
            ||| 0 <= settings.min_wtb_profit_margin && !A::whole(
                settings.min_wtb_profit_margin,
            ).below(item.profit_margin) && !A::whole(settings.min_wtb_profit_margin).same(
                item.profit_margin,
            )
        },
{
    assert(item@.volume == item.volume && item@.profit == item.profit && item@.avg_price
        == item.avg_price && item@.week_price_shift == item.week_price_shift && item@.trading_tax
        == item.trading_tax && item@.profit_margin == item.profit_margin);
}

/// With groups aggregated every item outside `ids` has the prices it had, and every item
/// of `ids` that had any has one, which is that of the item as a whole. `own` are the
/// prices that the item `id` had.
pub proof fn groups_have_the_price_of_the_whole<A: Amount>(
    prices: Vec<ItemPriceInfo<A>>,
    ids: &Vec<String>,
    r: Vec<ItemPriceInfo<A>>,
    id: Seq<char>,
    own: &[ItemPriceInfo<A>],
    whole: Option<ItemPriceInfo<A>>,
)
    requires
        call_ensures(aggregate_groups::<A>, (prices, ids), r),
        views(own@) == views(prices@).filter(|price: ItemPriceView<A>| price.wfm_id == id),
        call_ensures(aggregate_rankless_item_price::<A>, (own,), whole),
    ensures
        ({
            let after = views(r@).filter(|price: ItemPriceView<A>| price.wfm_id == id);
            let listed = exists|k: int| 0 <= k < ids@.len() && (#[trigger] ids@[k])@ == id;
            &&& !listed ==> after == views(own@)
            &&& listed && own@.len() == 0 ==> after.len() == 0
            &&& listed && own@.len() > 0 ==> whole is Some && after == seq![whole->0@]
        }),
{
    aggregation_leaves_one_price_for_each_group(views(prices@), views(ids@), id);
    assert(views(own@).len() == own@.len());
    if exists|k: int| 0 <= k < ids@.len() && (#[trigger] ids@[k])@ == id {
        let k = choose|k: int| 0 <= k < ids@.len() && (#[trigger] ids@[k])@ == id;
        assert(views(ids@)[k] == id);
    } else if views(ids@).contains(id) {
        let k = choose|k: int| 0 <= k < views(ids@).len() && views(ids@)[k] == id;
        assert(ids@[k]@ == id);
    }
}

/// Keys tell settings and modes apart: they are the same exactly where both are.
pub proof fn keys_tell_settings_and_modes_apart(
    settings_id: &str,
    mode: bool,
    other_id: &str,
    other_mode: bool,
    r: String,
    other: String,
)
    requires
        call_ensures(interesting_items_key, (settings_id, mode), r),
        call_ensures(interesting_items_key, (other_id, other_mode), other),
    ensures
        r@ == other@ <==> settings_id@ == other_id@ && mode == other_mode,
        r@.take(settings_id@.len() as int) == settings_id@,
        r@.skip(settings_id@.len() as int) == ";low_rank_mods_rankless_mode:"@ + if mode {
            "true"@
        } else {
            "false"@
        },
{
    reveal_strlit("true");
    reveal_strlit("false");
    let middle = ";low_rank_mods_rankless_mode:"@;
    assert(r@.take(settings_id@.len() as int) =~= settings_id@);
    assert(r@.skip(settings_id@.len() as int) =~= middle + flag_text(mode));
    if r@ == other@ {
        assert(r@[r@.len() - 2] == if mode { 'u' } else { 's' });
        assert(other@[other@.len() - 2] == if other_mode { 'u' } else { 's' });
        assert(settings_id@.len() == other_id@.len());
        assert(other@.take(other_id@.len() as int) =~= other_id@);
    }
}

/// There is something to log exactly where nothing is listed and nothing was remembered.
pub proof fn nothing_interesting_is_told_once<A: Amount>(
    remembered: bool,
    items: &Vec<ItemPriceInfo<A>>,
    key: &str,
    r: Option<LogLine>,
)
    requires
        call_ensures(nothing_interesting_notice::<A>, (remembered, items, key), r),
    ensures
        r is Some <==> !remembered && items@.len() == 0,
        r matches Some(line) ==> {
            &&& line.level == LogLevel::Info
            &&& line.component@ == "LiveScraper:Helpers:GetInterestingItems"@
            &&& line.message@ == "No interesting items found for settings: "@ + key@
        },
{
    if let Some(line) = r {
        assert(line@.level == line.level && line@.component == line.component@ && line@.message
            == line.message@);
    }
}

/// A threshold is switched off exactly below zero.
pub proof fn thresholds_are_off_below_zero(value: i64, r: bool)
    requires
        call_ensures(is_disabled, (value,), r),
    ensures
        value < 0 ==> r,
        value >= 0 ==> !r,
{
}

} // verus!
