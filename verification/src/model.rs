//! The data that the decisions are about.

use vstd::prelude::*;

use crate::amount::Amount;
use crate::text::{contains_text, copied_texts, view_of, views};

verus! {

/// What tells variants of one item apart: its rank, its variant, its charges or
/// its stars.
#[derive(Debug, PartialEq, Eq)]
pub struct SubType {
    /// The rank of a mod or an arcane.
    pub rank: Option<i64>,
    /// The named variant of an item.
    pub variant: Option<String>,
    /// The charges that are left.
    pub charges: Option<i64>,
    /// The amber stars that are installed.
    pub amber_stars: Option<i64>,
    /// The cyan stars that are installed.
    pub cyan_stars: Option<i64>,
    /// The short text that shows this sub type to a reader.
    pub short_display: String,
}

/// What a [`SubType`] says.
pub struct SubTypeView {
    pub rank: Option<i64>,
    pub variant: Option<Seq<char>>,
    pub charges: Option<i64>,
    pub amber_stars: Option<i64>,
    pub cyan_stars: Option<i64>,
    pub short_display: Seq<char>,
}

impl View for SubType {
    type V = SubTypeView;

    open spec fn view(&self) -> SubTypeView {
        SubTypeView {
            rank: self.rank,
            variant: view_of(self.variant),
            charges: self.charges,
            amber_stars: self.amber_stars,
            cyan_stars: self.cyan_stars,
            short_display: self.short_display@,
        }
    }
}

impl Clone for SubType {
    fn clone(&self) -> (r: SubType)
        ensures
            r == *self,
    {
        SubType {
            rank: self.rank,
            variant: self.variant.clone(),
            charges: self.charges,
            amber_stars: self.amber_stars,
            cyan_stars: self.cyan_stars,
            short_display: self.short_display.clone(),
        }
    }
}

/// A sub type that tells nothing apart.
pub open spec fn plain_sub_type() -> SubTypeView {
    SubTypeView {
        rank: None,
        variant: None,
        charges: None,
        amber_stars: None,
        cyan_stars: None,
        short_display: seq![],
    }
}

impl Default for SubType {
    fn default() -> (r: SubType)
        ensures
            r@ == plain_sub_type(),
    {
        SubType {
            rank: None,
            variant: None,
            charges: None,
            amber_stars: None,
            cyan_stars: None,
            short_display: String::new(),
        }
    }
}

/// What the market statistics say about the price of one item.
#[derive(Debug, PartialEq)]
pub struct ItemPriceInfo<A: Amount> {
    /// The name of the item in addresses of the market.
    pub wfm_url: String,
    /// The identifier of the item on the market.
    pub wfm_id: String,
    /// The name of the item and its sub type together.
    pub uuid: String,
    /// How many were traded.
    pub volume: A,
    /// The highest price.
    pub max_price: A,
    /// The lowest price.
    pub min_price: A,
    /// The average price.
    pub avg_price: A,
    /// The moving average of the price, if there is one.
    pub moving_avg: Option<A>,
    /// The median price.
    pub median: A,
    /// What buying and selling one earns.
    pub profit: A,
    /// What it earns, in percent.
    pub profit_margin: A,
    /// The tax on a trade, in credits.
    pub trading_tax: i64,
    /// How the price moved within a week.
    pub week_price_shift: A,
    /// The sub type that the figures are about.
    pub sub_type: Option<SubType>,
}

/// What an [`ItemPriceInfo`] says.
pub struct ItemPriceView<A: Amount> {
    pub wfm_url: Seq<char>,
    pub wfm_id: Seq<char>,
    pub uuid: Seq<char>,
    pub volume: A,
    pub max_price: A,
    pub min_price: A,
    pub avg_price: A,
    pub moving_avg: Option<A>,
    pub median: A,
    pub profit: A,
    pub profit_margin: A,
    pub trading_tax: i64,
    pub week_price_shift: A,
    pub sub_type: Option<SubTypeView>,
}

impl<A: Amount> View for ItemPriceInfo<A> {
    type V = ItemPriceView<A>;

    open spec fn view(&self) -> ItemPriceView<A> {
        ItemPriceView {
            wfm_url: self.wfm_url@,
            wfm_id: self.wfm_id@,
            uuid: self.uuid@,
            volume: self.volume,
            max_price: self.max_price,
            min_price: self.min_price,
            avg_price: self.avg_price,
            moving_avg: self.moving_avg,
            median: self.median,
            profit: self.profit,
            profit_margin: self.profit_margin,
            trading_tax: self.trading_tax,
            week_price_shift: self.week_price_shift,
            sub_type: view_of(self.sub_type),
        }
    }
}

impl<A: Amount> Clone for ItemPriceInfo<A> {
    fn clone(&self) -> (r: ItemPriceInfo<A>)
        ensures
            r == *self,
    {
        ItemPriceInfo {
            wfm_url: self.wfm_url.clone(),
            wfm_id: self.wfm_id.clone(),
            uuid: self.uuid.clone(),
            volume: self.volume,
            max_price: self.max_price,
            min_price: self.min_price,
            avg_price: self.avg_price,
            moving_avg: self.moving_avg,
            median: self.median,
            profit: self.profit,
            profit_margin: self.profit_margin,
            trading_tax: self.trading_tax,
            week_price_shift: self.week_price_shift,
            sub_type: self.sub_type.clone(),
        }
    }
}

/// Price figures of no item: empty names and nothing but zeros.
pub open spec fn no_price<A: Amount>() -> ItemPriceView<A> {
    ItemPriceView {
        wfm_url: seq![],
        wfm_id: seq![],
        uuid: seq![],
        volume: A::whole(0),
        max_price: A::whole(0),
        min_price: A::whole(0),
        avg_price: A::whole(0),
        moving_avg: None,
        median: A::whole(0),
        profit: A::whole(0),
        profit_margin: A::whole(0),
        trading_tax: 0,
        week_price_shift: A::whole(0),
        sub_type: None,
    }
}

impl<A: Amount> Default for ItemPriceInfo<A> {
    fn default() -> (r: ItemPriceInfo<A>)
        ensures
            r@ == no_price::<A>(),
    {
        let zero: A = A::from_int(0);
        ItemPriceInfo {
            wfm_url: String::new(),
            wfm_id: String::new(),
            uuid: String::new(),
            volume: zero,
            max_price: zero,
            min_price: zero,
            avg_price: zero,
            moving_avg: None,
            median: zero,
            profit: zero,
            profit_margin: zero,
            trading_tax: 0,
            week_price_shift: zero,
            sub_type: None,
        }
    }
}

/// What the catalogue says about the sub types of an item.
#[derive(Debug, PartialEq, Eq)]
pub struct CacheSubType {
    /// The highest rank that the item can have.
    pub max_rank: Option<i64>,
}

/// An item of the catalogue of tradable items.
#[derive(Debug, PartialEq, Eq)]
pub struct CacheTradableItem {
    /// The name of the item.
    pub name: String,
    /// The internal name of the item.
    pub unique_name: String,
    /// The identifier of the item on the market.
    pub wfm_id: String,
    /// The name of the item in addresses of the market.
    pub wfm_url_name: String,
    /// The tax on a trade, in credits.
    pub trade_tax: i64,
    /// The mastery rank that a buyer needs.
    pub mr_requirement: i64,
    /// What kind of item this is.
    pub tags: Vec<String>,
    /// The address of the item's wiki page.
    pub wiki_url: String,
    /// The address of the item's picture.
    pub image_url: String,
    /// The highest rank that the item can have.
    pub max_rank: Option<i64>,
    /// Whether several can be traded at once.
    pub bulk_tradable: bool,
    /// The sub types of the item.
    pub sub_type: Option<CacheSubType>,
}

/// A way of trading that can be switched on.
#[derive(Debug, Clone, Copy, PartialEq, Eq, Structural)]
pub enum TradeMode {
    /// Buy what is profitable.
    Buy,
    /// Sell what is in stock.
    Sell,
    /// Buy what is on the wish list.
    WishList,
}

/// The two sides of the market.
#[derive(Debug, Clone, Copy, PartialEq, Eq, Structural)]
pub enum OrderType {
    /// An order to buy.
    Buy,
    /// An order to sell.
    Sell,
}

/// What makes an item interesting. A threshold below zero is switched off.
#[derive(Debug, Clone, Copy, PartialEq, Eq)]
pub struct StockItemSettings {
    /// More than this many must be traded.
    pub volume_threshold: i64,
    /// The profit must be more than this.
    pub profit_threshold: i64,
    /// The average price must be no more than this.
    pub avg_price_cap: i64,
    /// The price must have moved by at least this within a week.
    pub price_shift_threshold: i64,
    /// The tax on a trade must be less than this.
    pub trading_tax_cap: i64,
    /// The profit margin must be at least this.
    pub min_wtb_profit_margin: i64,
    /// How many of an interesting item to buy.
    pub buy_quantity: i64,
}

/// How the scraper trades.
#[derive(Debug, PartialEq, Eq)]
pub struct LiveScraperSettings {
    /// Whether the ranks of mods with few ranks are ignored.
    pub low_rank_mods_rankless_mode: bool,
    /// The ways of trading that are switched on.
    pub trade_modes: Vec<TradeMode>,
    /// What makes an item interesting.
    pub stock_item: StockItemSettings,
}

impl LiveScraperSettings {
    /// Whether `mode` is switched on.
    pub fn has_trade_mode(&self, mode: TradeMode) -> (r: bool)
        ensures
            r == self.trade_modes@.contains(mode),
    {
        let mut i: usize = 0;
        while i < self.trade_modes.len()
            invariant
                i <= self.trade_modes.len(),
                forall|j: int| 0 <= j < i ==> self.trade_modes[j] != mode,
            decreases self.trade_modes.len() - i,
        {
            if self.trade_modes[i] == mode {
                return true;
            }
            i = i + 1;
        }
        false
    }
}

/// Settings that replace what the scraper would find by itself.
#[derive(Debug, PartialEq, Eq)]
pub struct DebuggingLiveScraper {
    /// The entries to work on, if there are any.
    pub entries: Vec<ItemEntry>,
}

/// Settings for finding faults.
#[derive(Debug, PartialEq, Eq)]
pub struct DebuggingSettings {
    /// Those of the live scraper.
    pub live_scraper: DebuggingLiveScraper,
}

/// The settings of the program, as far as the scraper reads them.
#[derive(Debug, PartialEq, Eq)]
pub struct Settings {
    /// How the scraper trades.
    pub live_scraper: LiveScraperSettings,
    /// Settings for finding faults.
    pub debugging: DebuggingSettings,
}

/// An item that the scraper works on.
#[derive(Debug, PartialEq, Eq)]
pub struct ItemEntry {
    /// The name of the item and its sub type together.
    pub uuid: String,
    /// The name of the item in addresses of the market.
    pub wfm_url: String,
    /// How soon the item is worked on.
    pub priority: i64,
    /// How many to buy.
    pub buy_quantity: i64,
    /// How many to sell.
    pub sell_quantity: i64,
    /// The item's place in the stock, if it has one.
    pub stock_id: Option<i64>,
    /// The item's place on the wish list, if it has one.
    pub wish_list_id: Option<i64>,
    /// What to do with the item.
    pub operation: Vec<String>,
    /// The sub type of the item.
    pub sub_type: Option<SubType>,
}

/// What an [`ItemEntry`] says.
pub struct ItemEntryView {
    pub uuid: Seq<char>,
    pub wfm_url: Seq<char>,
    pub priority: i64,
    pub buy_quantity: i64,
    pub sell_quantity: i64,
    pub stock_id: Option<i64>,
    pub wish_list_id: Option<i64>,
    pub operation: Seq<Seq<char>>,
    pub sub_type: Option<SubTypeView>,
}

impl View for ItemEntry {
    type V = ItemEntryView;

    open spec fn view(&self) -> ItemEntryView {
        ItemEntryView {
            uuid: self.uuid@,
            wfm_url: self.wfm_url@,
            priority: self.priority,
            buy_quantity: self.buy_quantity,
            sell_quantity: self.sell_quantity,
            stock_id: self.stock_id,
            wish_list_id: self.wish_list_id,
            operation: views(self.operation@),
            sub_type: view_of(self.sub_type),
        }
    }
}

impl Clone for ItemEntry {
    fn clone(&self) -> (r: ItemEntry)
        ensures
            r@ == self@,
    {
        ItemEntry {
            uuid: self.uuid.clone(),
            wfm_url: self.wfm_url.clone(),
            priority: self.priority,
            buy_quantity: self.buy_quantity,
            sell_quantity: self.sell_quantity,
            stock_id: self.stock_id,
            wish_list_id: self.wish_list_id,
            operation: copied_texts(&self.operation),
            sub_type: self.sub_type.clone(),
        }
    }
}

impl ItemEntry {
    /// The name of the item and its sub type together.
    pub fn uuid(&self) -> (r: &String)
        ensures
            *r == self.uuid,
    {
        &self.uuid
    }

    /// This entry, with `quantity` to buy.
    pub fn set_buy_quantity(self, quantity: i64) -> (r: ItemEntry)
        ensures
            r@ == (ItemEntryView { buy_quantity: quantity, ..self@ }),
    {
        ItemEntry { buy_quantity: quantity, ..self }
    }

    /// This entry, with `quantity` to sell.
    pub fn set_sell_quantity(self, quantity: i64) -> (r: ItemEntry)
        ensures
            r@ == (ItemEntryView { sell_quantity: quantity, ..self@ }),
    {
        ItemEntry { sell_quantity: quantity, ..self }
    }
}

/// Orders of one market, by side.
#[derive(Debug, PartialEq, Eq)]
pub struct OrderList<T> {
    /// The orders to buy.
    pub buy_orders: Vec<T>,
    /// The orders to sell.
    pub sell_orders: Vec<T>,
}

/// What is known about an order before it is sent to the market.
#[derive(Debug, PartialEq, Eq)]
pub struct OrderDetails {
    /// What to do with the order.
    pub operation: Vec<String>,
    /// The identifier of the order, where the market has it already.
    pub order_id: String,
    /// The identifier of the item on the market.
    pub item_id: String,
    /// The name of the item.
    pub item_name: String,
    /// How many to trade.
    pub quantity: u32,
    /// The sub type of the item.
    pub sub_type: Option<SubType>,
    /// What the market last knew of the order, in one text.
    pub update_string: String,
}

/// What an [`OrderDetails`] says.
pub struct OrderDetailsView {
    pub operation: Seq<Seq<char>>,
    pub order_id: Seq<char>,
    pub item_id: Seq<char>,
    pub item_name: Seq<char>,
    pub quantity: u32,
    pub sub_type: Option<SubTypeView>,
    pub update_string: Seq<char>,
}

impl View for OrderDetails {
    type V = OrderDetailsView;

    open spec fn view(&self) -> OrderDetailsView {
        OrderDetailsView {
            operation: views(self.operation@),
            order_id: self.order_id@,
            item_id: self.item_id@,
            item_name: self.item_name@,
            quantity: self.quantity,
            sub_type: view_of(self.sub_type),
            update_string: self.update_string@,
        }
    }
}

impl Clone for OrderDetails {
    fn clone(&self) -> (r: OrderDetails)
        ensures
            r@ == self@,
    {
        OrderDetails {
            operation: copied_texts(&self.operation),
            order_id: self.order_id.clone(),
            item_id: self.item_id.clone(),
            item_name: self.item_name.clone(),
            quantity: self.quantity,
            sub_type: self.sub_type.clone(),
            update_string: self.update_string.clone(),
        }
    }
}

/// Details of no order.
pub open spec fn no_details() -> OrderDetailsView {
    OrderDetailsView {
        operation: seq![],
        order_id: seq![],
        item_id: seq![],
        item_name: seq![],
        quantity: 0,
        sub_type: None,
        update_string: seq![],
    }
}

impl Default for OrderDetails {
    fn default() -> (r: OrderDetails)
        ensures
            r@ == no_details(),
    {
        let r: OrderDetails = OrderDetails {
            operation: Vec::new(),
            order_id: String::new(),
            item_id: String::new(),
            item_name: String::new(),
            quantity: 0,
            sub_type: None,
            update_string: String::new(),
        };
        assert(views(r.operation@) =~= seq![]);
        r
    }
}

impl OrderDetails {
    /// Whether `operation` is to be done with the order.
    pub fn has_operation(&self, operation: &str) -> (r: bool)
        ensures
            r == self@.operation.contains(operation@),
    {
        contains_text(&self.operation, &operation.to_owned())
    }

    /// These details, with `operation` as the only thing to do.
    pub fn set_operation(self, operation: &str) -> (r: OrderDetails)
        ensures
            r@ == (OrderDetailsView { operation: seq![operation@], ..self@ }),
    {
        let mut list: Vec<String> = Vec::new();
        list.push(operation.to_owned());
        assert(views(list@) =~= seq![operation@]);
        OrderDetails { operation: list, ..self }
    }

    /// These details, of the order `order_id`.
    pub fn set_order_id(self, order_id: &str) -> (r: OrderDetails)
        ensures
            r@ == (OrderDetailsView { order_id: order_id@, ..self@ }),
    {
        OrderDetails { order_id: order_id.to_owned(), ..self }
    }

    /// These details, with `update_string` as what the market last knew.
    pub fn set_update_string(self, update_string: &str) -> (r: OrderDetails)
        ensures
            r@ == (OrderDetailsView { update_string: update_string@, ..self@ }),
    {
        OrderDetails { update_string: update_string.to_owned(), ..self }
    }

    /// These details, of the item `item_id`.
    pub fn set_item_id(self, item_id: &str) -> (r: OrderDetails)
        ensures
            r@ == (OrderDetailsView { item_id: item_id@, ..self@ }),
    {
        OrderDetails { item_id: item_id.to_owned(), ..self }
    }

    /// These details, with `quantity` to trade.
    pub fn set_quantity(self, quantity: u32) -> (r: OrderDetails)
        ensures
            r@ == (OrderDetailsView { quantity, ..self@ }),
    {
        OrderDetails { quantity, ..self }
    }

    /// These details, of an item of `sub_type`.
    pub fn set_sub_type(self, sub_type: Option<SubType>) -> (r: OrderDetails)
        ensures
            r@ == (OrderDetailsView { sub_type: view_of(sub_type), ..self@ }),
    {
        OrderDetails { sub_type, ..self }
    }

    /// These details, with the name of `item_info`.
    pub fn set_info(self, item_info: &CacheTradableItem) -> (r: OrderDetails)
        ensures
            r@ == (OrderDetailsView { item_name: item_info.name@, ..self@ }),
    {
        OrderDetails { item_name: item_info.name.clone(), ..self }
    }
}

/// An order of the user that the market has.
#[derive(Debug, PartialEq, Eq)]
pub struct Order {
    /// The identifier of the order.
    pub id: String,
    /// The identifier of the item on the market.
    pub item_id: String,
    /// The sub type of the item.
    pub sub_type: Option<SubType>,
    /// What the market knows of the order, in one text.
    pub update_string: String,
    /// What was noted down with the order.
    pub details: OrderDetails,
}

/// What an [`Order`] says.
pub struct OrderView {
    pub id: Seq<char>,
    pub item_id: Seq<char>,
    pub sub_type: Option<SubTypeView>,
    pub update_string: Seq<char>,
    pub details: OrderDetailsView,
}

impl View for Order {
    type V = OrderView;

    open spec fn view(&self) -> OrderView {
        OrderView {
            id: self.id@,
            item_id: self.item_id@,
            sub_type: view_of(self.sub_type),
            update_string: self.update_string@,
            details: self.details@,
        }
    }
}

impl Clone for Order {
    fn clone(&self) -> (r: Order)
        ensures
            r@ == self@,
    {
        Order {
            id: self.id.clone(),
            item_id: self.item_id.clone(),
            sub_type: self.sub_type.clone(),
            update_string: self.update_string.clone(),
            details: self.details.clone(),
        }
    }
}

/// A view of a sub type tells all that the sub type holds.
pub proof fn sub_types_say_what_they_hold(s: SubType)
    ensures
        s@.rank == s.rank,
        s@.charges == s.charges,
        s@.amber_stars == s.amber_stars,
        s@.cyan_stars == s.cyan_stars,
        s@.variant == view_of(s.variant),
        s@.short_display == s.short_display@,
{
}

/// A view of price figures tells all that the figures hold.
pub proof fn prices_say_what_they_hold<A: Amount>(p: ItemPriceInfo<A>)
    ensures
        p@.wfm_url == p.wfm_url@,
        p@.wfm_id == p.wfm_id@,
        p@.uuid == p.uuid@,
        p@.volume == p.volume,
        p@.max_price == p.max_price,
        p@.min_price == p.min_price,
        p@.avg_price == p.avg_price,
        p@.moving_avg == p.moving_avg,
        p@.median == p.median,
        p@.profit == p.profit,
        p@.profit_margin == p.profit_margin,
        p@.trading_tax == p.trading_tax,
        p@.week_price_shift == p.week_price_shift,
        p@.sub_type == view_of(p.sub_type),
{
}

/// A view of an entry tells all that the entry holds.
pub proof fn entries_say_what_they_hold(e: ItemEntry)
    ensures
        e@.uuid == e.uuid@,
        e@.wfm_url == e.wfm_url@,
        e@.priority == e.priority,
        e@.buy_quantity == e.buy_quantity,
        e@.sell_quantity == e.sell_quantity,
        e@.stock_id == e.stock_id,
        e@.wish_list_id == e.wish_list_id,
        e@.operation == views(e.operation@),
        e@.sub_type == view_of(e.sub_type),
{
}

/// A view of the details of an order tells all that the details hold.
pub proof fn details_say_what_they_hold(d: OrderDetails)
    ensures
        d@.order_id == d.order_id@,
        d@.item_id == d.item_id@,
        d@.item_name == d.item_name@,
        d@.update_string == d.update_string@,
        d@.quantity == d.quantity,
        d@.operation == views(d.operation@),
        d@.sub_type == view_of(d.sub_type),
{
}

/// A view of an order tells all that the order holds.
pub proof fn orders_say_what_they_hold(o: Order)
    ensures
        o@.id == o.id@,
        o@.item_id == o.item_id@,
        o@.update_string == o.update_string@,
        o@.details == o.details@,
        o@.sub_type == view_of(o.sub_type),
{
}

/// A way of trading is switched on exactly where it is one of those in the settings.
pub proof fn switched_on_ways_are_those_in_the_settings(
    settings: &LiveScraperSettings,
    mode: TradeMode,
    r: bool,
)
    requires
        call_ensures(LiveScraperSettings::has_trade_mode, (settings, mode), r),
    ensures
        r <==> exists|i: int|
            0 <= i < settings.trade_modes@.len() && #[trigger] settings.trade_modes@[i] == mode,
{
    if r {
        let i = choose|i: int|
            0 <= i < settings.trade_modes@.len() && settings.trade_modes@[i] == mode;
        assert(settings.trade_modes@[i] == mode);
    }
}

} // verus!
