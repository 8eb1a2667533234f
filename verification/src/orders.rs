//! The user's own orders and those of others on the market.

use vstd::prelude::*;

use crate::model::{
    no_details, CacheTradableItem, ItemEntry, ItemEntryView, Order, OrderDetails, OrderDetailsView,
    OrderList, OrderType, OrderView, Settings, SubType, SubTypeView,
};
use crate::rankless::{
    ignores_rank, is_same_sub_type_without_rank, same_but_for_rank,
    should_ignore_rank_for_low_rank_mod,
};
use crate::text::{view_of, views};

verus! {

/// Whether to skip an item because one side of its market is empty, and which
/// operation that rules out: "selling" where nobody sells, or else "buying" where
/// nobody buys.
pub fn skip_if_no_market_activity<T>(live_orders: &OrderList<T>) -> (r: (bool, String))
    ensures
        r.0 == (live_orders.sell_orders@.len() == 0 || live_orders.buy_orders@.len() == 0),
        r.1@ == if live_orders.sell_orders@.len() == 0 {
            "selling"@
        } else if live_orders.buy_orders@.len() == 0 {
            "buying"@
        } else {
            ""@
        },
{
    let sell_count: usize = live_orders.sell_orders.len();
    let buy_count: usize = live_orders.buy_orders.len();
    if sell_count == 0 || buy_count == 0 {
        let operation: &str = if sell_count == 0 {
            "selling"
        } else {
            "buying"
        };
        return (true, operation.to_owned());
    }
    (false, "".to_owned())
}

/// The orders of `orders` on the side `order_type`.
pub open spec fn side(orders: OrderList<Order>, order_type: OrderType) -> Seq<OrderView> {
    match order_type {
        OrderType::Buy => views(orders.buy_orders@),
        OrderType::Sell => views(orders.sell_orders@),
    }
}

/// Whether `order` is for the item `wfm_id` and agrees with `sub_type` in everything
/// but the rank.
pub open spec fn is_order_for(
    order: OrderView,
    wfm_id: Seq<char>,
    sub_type: Option<SubTypeView>,
) -> bool {
    order.item_id == wfm_id && same_but_for_rank(sub_type, order.sub_type)
}

/// Whether `found` is the first of `orders` for the item `wfm_id` and `sub_type` at
/// any rank, or nothing where there is no such order.
pub open spec fn is_first_order_for(
    orders: Seq<OrderView>,
    wfm_id: Seq<char>,
    sub_type: Option<SubTypeView>,
    found: Option<OrderView>,
) -> bool {
    match found {
        Some(order) => exists|i: int|
            {
                &&& 0 <= i < orders.len()
                &&& #[trigger] orders[i] == order
                &&& is_order_for(order, wfm_id, sub_type)
                &&& forall|j: int|
                    0 <= j < i ==> !is_order_for(#[trigger] orders[j], wfm_id, sub_type)
            },
        None => forall|j: int|
            0 <= j < orders.len() ==> !is_order_for(#[trigger] orders[j], wfm_id, sub_type),
    }
}

/// The rank that is asked for makes no difference: whatever is found for an item is the
/// same for sub types that agree in everything but the rank.
pub proof fn first_order_is_unique_at_any_rank(
    orders: Seq<OrderView>,
    wfm_id: Seq<char>,
    sub_type: Option<SubTypeView>,
    other_sub_type: Option<SubTypeView>,
    found: Option<OrderView>,
    other: Option<OrderView>,
)
    requires
        same_but_for_rank(sub_type, other_sub_type),
        is_first_order_for(orders, wfm_id, sub_type, found),
        is_first_order_for(orders, wfm_id, other_sub_type, other),
    ensures
        found == other,
{
    assert(forall|order: OrderView| #[trigger]
        is_order_for(order, wfm_id, other_sub_type) == is_order_for(order, wfm_id, sub_type));
    if let Some(order) = found {
        let i = choose|i: int|
            {
                &&& 0 <= i < orders.len()
                &&& #[trigger] orders[i] == order
                &&& is_order_for(order, wfm_id, sub_type)
                &&& forall|j: int|
                    0 <= j < i ==> !is_order_for(#[trigger] orders[j], wfm_id, sub_type)
            };
        assert(is_order_for(orders[i], wfm_id, other_sub_type));
    }
    if let Some(order) = other {
        let k = choose|k: int|
            {
                &&& 0 <= k < orders.len()
                &&& #[trigger] orders[k] == order
                &&& is_order_for(order, wfm_id, other_sub_type)
                &&& forall|j: int|
                    0 <= j < k ==> !is_order_for(#[trigger] orders[j], wfm_id, other_sub_type)
            };
        assert(is_order_for(orders[k], wfm_id, sub_type));
    }
}

/// Only one order is the first: whatever is found for an item and a sub type, or for no
/// sub type, is always the same.
pub proof fn first_order_is_unique(
    orders: Seq<OrderView>,
    wfm_id: Seq<char>,
    sub_type: Option<SubTypeView>,
    found: Option<OrderView>,
    other: Option<OrderView>,
)
    requires
        is_first_order_for(orders, wfm_id, sub_type, found),
        is_first_order_for(orders, wfm_id, sub_type, other),
    ensures
        found == other,
{
    first_order_is_unique_at_any_rank(orders, wfm_id, sub_type, sub_type, found, other);
}

/// The first of the user's orders on the side `order_type` for `item_info` and
/// `sub_type`, at any rank.
pub fn find_order_at_any_rank(
    item_info: &CacheTradableItem,
    sub_type: &Option<SubType>,
    orders: &OrderList<Order>,
    order_type: OrderType,
) -> (r: Option<Order>)
    ensures
        is_first_order_for(
            side(*orders, order_type),
            item_info.wfm_id@,
            view_of(*sub_type),
            view_of(r),
        ),
{
    let candidates: &Vec<Order> = match order_type {
        OrderType::Buy => &orders.buy_orders,
        OrderType::Sell => &orders.sell_orders,
    };
    let ghost all = views(candidates@);
    let mut i: usize = 0;
    while i < candidates.len()
        invariant
            i <= candidates.len(),
            all == views(candidates@),
            all == side(*orders, order_type),
            forall|j: int|
                0 <= j < i ==> !is_order_for(
                    #[trigger] all[j],
                    item_info.wfm_id@,
                    view_of(*sub_type),
                ),
        decreases candidates.len() - i,
    {
        let order: &Order = &candidates[i];
        assert(all[i as int] == order@);
        if order.item_id == item_info.wfm_id && is_same_sub_type_without_rank(
            sub_type,
            &order.sub_type,
        ) {
            return Some(order.clone());
        }
        i = i + 1;
    }
    None
}

/// The user's order on the side `order_type` that `entry` is about. Where the rank
/// of `item_info` is ignored, it is the first for the item and its sub type at any
/// rank. Otherwise it is what `find_order` finds for the item and its sub type.
pub fn find_existing_order_by_mode<
    F: FnOnce(&OrderList<Order>, &String, Option<SubType>, OrderType) -> Option<Order>,
>(
    item_info: &CacheTradableItem,
    entry: &ItemEntry,
    orders: &OrderList<Order>,
    order_type: OrderType,
    settings: &Settings,
    find_order: F,
) -> (r: Option<Order>)
    requires
        !ignores_rank(*settings, *item_info) ==> call_requires(
            find_order,
            (orders, &item_info.wfm_id, entry.sub_type, order_type),
        ),
    ensures
        ignores_rank(*settings, *item_info) ==> is_first_order_for(
            side(*orders, order_type),
            item_info.wfm_id@,
            entry@.sub_type,
            view_of(r),
        ),
        !ignores_rank(*settings, *item_info) ==> call_ensures(
            find_order,
            (orders, &item_info.wfm_id, entry.sub_type, order_type),
            r,
        ),
{
    if !should_ignore_rank_for_low_rank_mod(settings, item_info) {
        return find_order(orders, &item_info.wfm_id, entry.sub_type.clone(), order_type);
    }
    find_order_at_any_rank(item_info, &entry.sub_type, orders, order_type)
}

/// How many of `entry` to trade on the side `order_type`.
pub open spec fn quantity_of(entry: ItemEntryView, order_type: OrderType) -> i64 {
    match order_type {
        OrderType::Buy => entry.buy_quantity,
        OrderType::Sell => entry.sell_quantity,
    }
}

/// The details of the order for `entry`: those of the order that there is already,
/// which is to be updated, or else new ones, with the item, its name, its sub type
/// and its quantity filled in. The quantity is taken modulo 2 to the power of 32.
pub open spec fn details_for(
    item_info: CacheTradableItem,
    entry: ItemEntryView,
    order_type: OrderType,
    existing: Option<OrderView>,
) -> OrderDetailsView {
    let base = match existing {
        Some(order) => OrderDetailsView {
            operation: seq!["Update"@],
            order_id: order.id,
            update_string: order.update_string,
            ..order.details
        },
        None => no_details(),
    };
    OrderDetailsView {
        item_id: item_info.wfm_id@,
        item_name: item_info.name@,
        quantity: (quantity_of(entry, order_type) as int % 0x1_0000_0000) as u32,
        sub_type: entry.sub_type,
        ..base
    }
}

/// `quantity` modulo 2 to the power of 32.
fn wrapped_quantity(quantity: i64) -> (r: u32)
    ensures
        r as int == quantity as int % 0x1_0000_0000,
{
    let r: u32 = #[verifier::truncate] (quantity as u32);
    assert(r as i64 == quantity & 0xffff_ffff) by (bit_vector)
        requires
            r == quantity as u32,
    ;
    assert(quantity & 0xffff_ffff == quantity % 0x1_0000_0000) by (bit_vector);
    r
}

/// The details of the order for `entry`, where `existing` is the order that there is
/// already.
pub fn order_details(
    item_info: &CacheTradableItem,
    entry: &ItemEntry,
    order_type: OrderType,
    existing: Option<Order>,
) -> (r: OrderDetails)
    ensures
        r@ == details_for(*item_info, entry@, order_type, view_of(existing)),
{
    let quantity: i64 = match order_type {
        OrderType::Buy => entry.buy_quantity,
        OrderType::Sell => entry.sell_quantity,
    };
    let base: OrderDetails = match existing {
        Some(order) => order.details.set_operation("Update").set_order_id(
            order.id.as_str(),
        ).set_update_string(order.update_string.as_str()),
        None => OrderDetails::default(),
    };
    base.set_item_id(item_info.wfm_id.as_str()).set_quantity(
        wrapped_quantity(quantity),
    ).set_sub_type(entry.sub_type.clone()).set_info(item_info)
}

/// The details of the order for `entry`, from the user's `orders`, of which
/// [`find_existing_order_by_mode`] picks the one that there is already.
pub fn get_order_info<
    F: FnOnce(&OrderList<Order>, &String, Option<SubType>, OrderType) -> Option<Order>,
>(
    item_info: &CacheTradableItem,
    entry: &ItemEntry,
    orders: &OrderList<Order>,
    order_type: OrderType,
    settings: &Settings,
    find_order: F,
) -> (r: OrderDetails)
    requires
        !ignores_rank(*settings, *item_info) ==> call_requires(
            find_order,
            (orders, &item_info.wfm_id, entry.sub_type, order_type),
        ),
    ensures
        ignores_rank(*settings, *item_info) ==> exists|existing: Option<OrderView>| #[trigger]
            is_first_order_for(
                side(*orders, order_type),
                item_info.wfm_id@,
                entry@.sub_type,
                existing,
            ) && r@ == details_for(*item_info, entry@, order_type, existing),
        !ignores_rank(*settings, *item_info) ==> exists|existing: Option<Order>| #[trigger]
            call_ensures(
                find_order,
                (orders, &item_info.wfm_id, entry.sub_type, order_type),
                existing,
            ) && r@ == details_for(*item_info, entry@, order_type, view_of(existing)),
{
    let existing: Option<Order> = find_existing_order_by_mode(
        item_info,
        entry,
        orders,
        order_type,
        settings,
        find_order,
    );
    order_details(item_info, entry, order_type, existing)
}

/// A market is skipped exactly where one of its sides is empty. Missing sellers are named
/// before missing buyers, and nothing is named where the market is not skipped.
pub proof fn markets_with_both_sides_are_not_skipped<T>(
    live_orders: &OrderList<T>,
    r: (bool, String),
)
    requires
        call_ensures(skip_if_no_market_activity::<T>, (live_orders,), r),
    ensures
        live_orders.sell_orders@.len() > 0 && live_orders.buy_orders@.len() > 0 ==> !r.0 && r.1@.len()
            == 0,
        live_orders.sell_orders@.len() == 0 ==> r.0 && r.1@ == "selling"@,
        live_orders.sell_orders@.len() > 0 && live_orders.buy_orders@.len() == 0 ==> r.0 && r.1@
            == "buying"@,
{
    reveal_strlit("");
}

/// What is traded is decided by the item and the entry alone: the details are about the
/// item and its name, the sub type is the entry's, and the quantity is what the entry says
/// of the side, modulo 2 to the power of 32. Neither an order that there is already nor
/// what was noted down with it has a say in these.
pub proof fn entry_decides_what_is_traded(
    item_info: &CacheTradableItem,
    entry: &ItemEntry,
    order_type: OrderType,
    existing: Option<Order>,
    r: OrderDetails,
)
    requires
        call_ensures(order_details, (item_info, entry, order_type, existing), r),
    ensures
        order_type == OrderType::Buy ==> r.quantity as int == entry.buy_quantity as int
            % 0x1_0000_0000,
        order_type == OrderType::Sell ==> r.quantity as int == entry.sell_quantity as int
            % 0x1_0000_0000,
        r.item_id@ == item_info.wfm_id@,
        r.item_name@ == item_info.name@,
        view_of(r.sub_type) == view_of(entry.sub_type),
{
    lemma_details_say_what_they_hold(r);
    assert(entry@.sub_type == view_of(entry.sub_type));
}

/// What is done is decided by the order that there is already: it is updated, under its
/// identifier and with what the market knows of it. Where there is none, the details name
/// no order and nothing to do.
pub proof fn existing_order_decides_what_is_done(
    item_info: &CacheTradableItem,
    entry: &ItemEntry,
    order_type: OrderType,
    existing: Option<Order>,
    r: OrderDetails,
)
    requires
        call_ensures(order_details, (item_info, entry, order_type, existing), r),
    ensures
        existing matches Some(order) ==> {
            &&& r.operation@.len() == 1
            &&& r.operation@[0]@ == "Update"@
            &&& r.order_id@ == order.id@
            &&& r.update_string@ == order.update_string@
        },
        existing is None ==> r.operation@.len() == 0 && r.order_id@.len() == 0
            && r.update_string@.len() == 0,
{
    lemma_details_say_what_they_hold(r);
    if existing is Some {
        assert(r@.operation[0] == r.operation@[0]@);
    }
}

proof fn lemma_details_say_what_they_hold(r: OrderDetails)
    ensures
        r@.operation.len() == r.operation@.len(),
        r@.quantity == r.quantity,
        r@.item_id == r.item_id@,
        r@.item_name == r.item_name@,
        r@.order_id == r.order_id@,
        r@.update_string == r.update_string@,
        r@.sub_type == view_of(r.sub_type),
{
}

/// Where the rank is ignored, the order that there is already is the first on the side
/// asked for that is about the item and agrees with the sub type in everything but the
/// rank. `agrees` tells which do: those for which [`is_same_sub_type_without_rank`] says so.
pub proof fn order_at_any_rank_is_the_first_that_agrees(
    item_info: &CacheTradableItem,
    sub_type: &Option<SubType>,
    orders: &OrderList<Order>,
    order_type: OrderType,
    r: Option<Order>,
    candidates: Seq<Order>,
    agrees: spec_fn(int) -> bool,
)
    requires
        call_ensures(find_order_at_any_rank, (item_info, sub_type, orders, order_type), r),
        order_type == OrderType::Buy ==> candidates == orders.buy_orders@,
        order_type == OrderType::Sell ==> candidates == orders.sell_orders@,
        forall|i: int|
            0 <= i < candidates.len() ==> call_ensures(
                is_same_sub_type_without_rank,
                (sub_type, &(#[trigger] candidates[i]).sub_type),
                agrees(i),
            ),
    ensures
        forall|i: int|
            0 <= i < candidates.len() && (#[trigger] candidates[i]).item_id@ == item_info.wfm_id@
                && agrees(i) && (forall|j: int|
                0 <= j < i ==> !((#[trigger] candidates[j]).item_id@ == item_info.wfm_id@ && agrees(
                    j,
                ))) ==> (r matches Some(order) && order@ == candidates[i]@),
        (forall|i: int|
            0 <= i < candidates.len() ==> !((#[trigger] candidates[i]).item_id@ == item_info.wfm_id@
                && agrees(i))) ==> r is None,
{
    let all = side(*orders, order_type);
    assert(all =~= views(candidates));
    assert forall|i: int| 0 <= i < candidates.len() implies is_order_for(
        #[trigger] all[i],
        item_info.wfm_id@,
        view_of(*sub_type),
    ) == (candidates[i].item_id@ == item_info.wfm_id@ && agrees(i)) by {
        assert(all[i] == candidates[i]@);
        assert(all[i].item_id == candidates[i].item_id@);
        assert(all[i].sub_type == view_of(candidates[i].sub_type));
        assert(call_ensures(
            is_same_sub_type_without_rank,
            (sub_type, &candidates[i].sub_type),
            agrees(i),
        ));
    }
    assert forall|i: int|
        0 <= i < candidates.len() && (#[trigger] candidates[i]).item_id@ == item_info.wfm_id@
            && agrees(i) && (forall|j: int|
            0 <= j < i ==> !((#[trigger] candidates[j]).item_id@ == item_info.wfm_id@ && agrees(
                j,
            ))) implies r matches Some(order) && order@ == candidates[i]@ by {
        assert(is_order_for(all[i], item_info.wfm_id@, view_of(*sub_type)));
        assert forall|j: int| 0 <= j < i implies !is_order_for(
            #[trigger] all[j],
            item_info.wfm_id@,
            view_of(*sub_type),
        ) by {
            assert(!(candidates[j].item_id@ == item_info.wfm_id@ && agrees(j)));
        }
        assert(is_first_order_for(
            all,
            item_info.wfm_id@,
            view_of(*sub_type),
            Some(candidates[i]@),
        ));
        first_order_is_unique(
            all,
            item_info.wfm_id@,
            view_of(*sub_type),
            view_of(r),
            Some(candidates[i]@),
        );
    }
    if forall|i: int|
        0 <= i < candidates.len() ==> !((#[trigger] candidates[i]).item_id@ == item_info.wfm_id@
            && agrees(i)) {
        assert forall|j: int| 0 <= j < all.len() implies !is_order_for(
            #[trigger] all[j],
            item_info.wfm_id@,
            view_of(*sub_type),
        ) by {
            assert(!(candidates[j].item_id@ == item_info.wfm_id@ && agrees(j)));
        }
        first_order_is_unique(all, item_info.wfm_id@, view_of(*sub_type), view_of(r), None);
    }
}

/// The order that there is already is the one at any rank where the rank is ignored, and
/// otherwise the one that `find_order` finds for the item, the entry's sub type and the
/// side.
pub proof fn existing_order_goes_by_the_mode<
    F: FnOnce(&OrderList<Order>, &String, Option<SubType>, OrderType) -> Option<Order>,
>(
    item_info: &CacheTradableItem,
    entry: &ItemEntry,
    orders: &OrderList<Order>,
    order_type: OrderType,
    settings: &Settings,
    find_order: F,
    r: Option<Order>,
    ignored: bool,
    at_any_rank: Option<Order>,
)
    requires
        call_ensures(
            find_existing_order_by_mode::<F>,
            (item_info, entry, orders, order_type, settings, find_order),
            r,
        ),
        call_ensures(should_ignore_rank_for_low_rank_mod, (settings, item_info), ignored),
        call_ensures(
            find_order_at_any_rank,
            (item_info, &entry.sub_type, orders, order_type),
            at_any_rank,
        ),
    ensures
        ignored ==> view_of(r) == view_of(at_any_rank),
        !ignored ==> call_ensures(
            find_order,
            (orders, &item_info.wfm_id, entry.sub_type, order_type),
            r,
        ),
{
    if ignored {
        assert(entry@.sub_type == view_of(entry.sub_type));
        first_order_is_unique(
            side(*orders, order_type),
            item_info.wfm_id@,
            view_of(entry.sub_type),
            view_of(r),
            view_of(at_any_rank),
        );
    }
}

/// The details of an order are those for the order that there is already, which is found
/// by the mode.
pub proof fn order_info_is_about_the_existing_order<
    F: FnOnce(&OrderList<Order>, &String, Option<SubType>, OrderType) -> Option<Order>,
>(
    item_info: &CacheTradableItem,
    entry: &ItemEntry,
    orders: &OrderList<Order>,
    order_type: OrderType,
    settings: &Settings,
    find_order: F,
    r: OrderDetails,
    existing: Option<Order>,
    expected: OrderDetails,
)
    requires
        call_ensures(
            get_order_info::<F>,
            (item_info, entry, orders, order_type, settings, find_order),
            r,
        ),
        call_ensures(
            find_existing_order_by_mode::<F>,
            (item_info, entry, orders, order_type, settings, find_order),
            existing,
        ),
        call_ensures(order_details, (item_info, entry, order_type, existing), expected),
        forall|a: Option<Order>, b: Option<Order>|
            call_ensures(find_order, (orders, &item_info.wfm_id, entry.sub_type, order_type), a)
                && call_ensures(
                find_order,
                (orders, &item_info.wfm_id, entry.sub_type, order_type),
                b,
            ) ==> a == b,
    ensures
        r@ == expected@,
{
    if ignores_rank(*settings, *item_info) {
        let first = choose|first: Option<OrderView>| #[trigger]
            is_first_order_for(
                side(*orders, order_type),
                item_info.wfm_id@,
                entry@.sub_type,
                first,
            ) && r@ == details_for(*item_info, entry@, order_type, first);
        first_order_is_unique(
            side(*orders, order_type),
            item_info.wfm_id@,
            entry@.sub_type,
            first,
            view_of(existing),
        );
    }
}

/// Whatever order there is already and however it is found, the details are about the
/// item, the entry's sub type and the entry's quantity for the side.
pub proof fn order_info_trades_what_the_entry_says<
    F: FnOnce(&OrderList<Order>, &String, Option<SubType>, OrderType) -> Option<Order>,
>(
    item_info: &CacheTradableItem,
    entry: &ItemEntry,
    orders: &OrderList<Order>,
    order_type: OrderType,
    settings: &Settings,
    find_order: F,
    r: OrderDetails,
)
    requires
        call_ensures(
            get_order_info::<F>,
            (item_info, entry, orders, order_type, settings, find_order),
            r,
        ),
    ensures
        order_type == OrderType::Buy ==> r.quantity as int == entry.buy_quantity as int
            % 0x1_0000_0000,
        order_type == OrderType::Sell ==> r.quantity as int == entry.sell_quantity as int
            % 0x1_0000_0000,
        r.item_id@ == item_info.wfm_id@,
        r.item_name@ == item_info.name@,
        view_of(r.sub_type) == view_of(entry.sub_type),
        r.operation@.len() == 0 || (r.operation@.len() == 1 && r.operation@[0]@ == "Update"@),
{
    lemma_details_say_what_they_hold(r);
    assert(entry@.sub_type == view_of(entry.sub_type));
    if r.operation@.len() == 1 {
        assert(r@.operation[0] == r.operation@[0]@);
    }
}

} // verus!
