//! The list of items to work on, put together from what is interesting to buy, what
//! is in stock and what is wished for.

use vstd::prelude::*;

use crate::model::{ItemEntry, ItemEntryView, Settings, TradeMode};
use crate::progress::{LogLevel, LogLine, LogLineView};
use crate::text::{followed_by, view_of, views};

verus! {

/// An item that is interesting to buy.
#[derive(Debug, PartialEq, Eq)]
pub struct BuyCandidate {
    /// The entry that the item makes by itself.
    pub entry: ItemEntry,
    /// Whether the item must not be bought.
    pub blacklisted: bool,
}

/// An item in stock.
#[derive(Debug, PartialEq, Eq)]
pub struct StockCandidate {
    /// The name of the item and its sub type together.
    pub uuid: String,
    /// The item's place in the stock.
    pub id: i64,
    /// How many are in stock.
    pub owned: i64,
    /// The entry that the item makes by itself.
    pub entry: ItemEntry,
    /// Whether the item must not be sold.
    pub blacklisted: bool,
}

/// An item on the wish list.
#[derive(Debug, PartialEq, Eq)]
pub struct WishCandidate {
    /// The name of the item and its sub type together.
    pub uuid: String,
    /// The item's place on the wish list.
    pub id: i64,
    /// How many are wished for.
    pub quantity: i64,
    /// The entry that the item makes by itself.
    pub entry: ItemEntry,
    /// Whether the item must not be bought for the wish list.
    pub blacklisted: bool,
}

/// Whether the entry at `i` is the first of `book` under `key`.
pub open spec fn is_first_under(
    book: Seq<(Seq<char>, ItemEntryView)>,
    key: Seq<char>,
    i: int,
) -> bool {
    &&& 0 <= i < book.len()
    &&& book[i].0 == key
    &&& forall|j: int| 0 <= j < i ==> (#[trigger] book[j]).0 != key
}

/// The entry of `book` under `key`.
pub open spec fn lookup(
    book: Seq<(Seq<char>, ItemEntryView)>,
    key: Seq<char>,
) -> Option<ItemEntryView> {
    if exists|i: int| is_first_under(book, key, i) {
        Some(book[choose|i: int| is_first_under(book, key, i)].1)
    } else {
        None
    }
}

/// `book` with `entry` under `key`: in the place of the entry that was there, or
/// else at the end.
pub open spec fn put(
    book: Seq<(Seq<char>, ItemEntryView)>,
    key: Seq<char>,
    entry: ItemEntryView,
) -> Seq<(Seq<char>, ItemEntryView)> {
    if exists|i: int| is_first_under(book, key, i) {
        book.update(choose|i: int| is_first_under(book, key, i), (key, entry))
    } else {
        book.push((key, entry))
    }
}

/// The entry of an item to buy: `quantity` of it.
pub open spec fn to_buy(candidate: BuyCandidate, quantity: i64) -> ItemEntryView {
    ItemEntryView { buy_quantity: quantity, ..candidate.entry@ }
}

/// The entry of an item to sell: what there is `already`, now with priority 1 and
/// selling what is owned, or else the entry that the item makes by itself, selling
/// what is owned.
pub open spec fn to_sell(
    candidate: StockCandidate,
    already: Option<ItemEntryView>,
) -> ItemEntryView {
    match already {
        Some(entry) => ItemEntryView {
            priority: 1,
            sell_quantity: candidate.owned,
            stock_id: Some(candidate.id),
            operation: entry.operation.push("Sell"@),
            ..entry
        },
        None => ItemEntryView { sell_quantity: candidate.owned, ..candidate.entry@ },
    }
}

/// The entry of an item to buy for the wish list: what there is `already`, now with
/// priority 2 and buying what is wished for, or else the entry that the item makes
/// by itself.
pub open spec fn to_wish(
    candidate: WishCandidate,
    already: Option<ItemEntryView>,
) -> ItemEntryView {
    match already {
        Some(entry) => ItemEntryView {
            priority: 2,
            buy_quantity: candidate.quantity,
            wish_list_id: Some(candidate.id),
            operation: entry.operation.push("WishList"@),
            ..entry
        },
        None => candidate.entry@,
    }
}

/// `book` with the items to buy added, one after another.
pub open spec fn with_buys(
    book: Seq<(Seq<char>, ItemEntryView)>,
    buys: Seq<BuyCandidate>,
    quantity: i64,
) -> Seq<(Seq<char>, ItemEntryView)>
    decreases buys.len(),
{
    if buys.len() == 0 {
        book
    } else {
        let before = with_buys(book, buys.drop_last(), quantity);
        let last = buys.last();
        if last.blacklisted {
            before
        } else {
            put(before, last.entry.uuid@, to_buy(last, quantity))
        }
    }
}

/// `book` with the items in stock added, one after another.
pub open spec fn with_stock(
    book: Seq<(Seq<char>, ItemEntryView)>,
    stock: Seq<StockCandidate>,
) -> Seq<(Seq<char>, ItemEntryView)>
    decreases stock.len(),
{
    if stock.len() == 0 {
        book
    } else {
        let before = with_stock(book, stock.drop_last());
        let last = stock.last();
        if last.blacklisted {
            before
        } else {
            put(before, last.uuid@, to_sell(last, lookup(before, last.uuid@)))
        }
    }
}

/// `book` with the items of the wish list added, one after another.
pub open spec fn with_wishes(
    book: Seq<(Seq<char>, ItemEntryView)>,
    wishes: Seq<WishCandidate>,
) -> Seq<(Seq<char>, ItemEntryView)>
    decreases wishes.len(),
{
    if wishes.len() == 0 {
        book
    } else {
        let before = with_wishes(book, wishes.drop_last());
        let last = wishes.last();
        if last.blacklisted {
            before
        } else {
            put(before, last.uuid@, to_wish(last, lookup(before, last.uuid@)))
        }
    }
}

/// The entries of the items to buy, where buying is switched on.
pub open spec fn bought(
    settings: Settings,
    buys: Seq<BuyCandidate>,
) -> Seq<(Seq<char>, ItemEntryView)> {
    if settings.live_scraper.trade_modes@.contains(TradeMode::Buy) {
        with_buys(seq![], buys, settings.live_scraper.stock_item.buy_quantity)
    } else {
        seq![]
    }
}

/// The entries of the items to buy and those of the items in stock, where selling is
/// switched on.
pub open spec fn bought_and_sold(
    settings: Settings,
    buys: Seq<BuyCandidate>,
    stock: Seq<StockCandidate>,
) -> Seq<(Seq<char>, ItemEntryView)> {
    if settings.live_scraper.trade_modes@.contains(TradeMode::Sell) {
        with_stock(bought(settings, buys), stock)
    } else {
        bought(settings, buys)
    }
}

/// The entries under their names, from the ways of trading that are switched on.
pub open spec fn collected(
    settings: Settings,
    buys: Seq<BuyCandidate>,
    stock: Seq<StockCandidate>,
    wishes: Seq<WishCandidate>,
) -> Seq<(Seq<char>, ItemEntryView)> {
    if settings.live_scraper.trade_modes@.contains(TradeMode::WishList) {
        with_wishes(bought_and_sold(settings, buys, stock), wishes)
    } else {
        bought_and_sold(settings, buys, stock)
    }
}

/// What entries under their names say.
spec fn book_view(book: Seq<(String, ItemEntry)>) -> Seq<(Seq<char>, ItemEntryView)> {
    Seq::new(book.len(), |i: int| (book[i].0@, book[i].1@))
}

/// At most one entry is the first under a key.
proof fn lemma_first_is_unique(
    book: Seq<(Seq<char>, ItemEntryView)>,
    key: Seq<char>,
    i: int,
    j: int,
)
    requires
        is_first_under(book, key, i),
        is_first_under(book, key, j),
    ensures
        i == j,
{
}

/// Where the first entry of `book` under `key` is.
fn find(book: &Vec<(String, ItemEntry)>, key: &String) -> (r: Option<usize>)
    ensures
        r matches Some(i) ==> is_first_under(book_view(book@), key@, i as int),
        r is None ==> forall|i: int| !is_first_under(book_view(book@), key@, i),
{
    let mut i: usize = 0;
    while i < book.len()
        invariant
            i <= book.len(),
            forall|j: int| 0 <= j < i ==> (#[trigger] book_view(book@)[j]).0 != key@,
        decreases book.len() - i,
    {
        if book[i].0 == *key {
            assert(book_view(book@)[i as int].0 == key@);
            return Some(i);
        }
        i = i + 1;
    }
    None
}

/// Puts `entry` into `book` under `key`.
fn store(book: &mut Vec<(String, ItemEntry)>, key: String, entry: ItemEntry)
    ensures
        book_view(final(book)@) == put(book_view(old(book)@), key@, entry@),
{
    let ghost before = book_view(book@);
    match find(book, &key) {
        Some(i) => {
            let ghost first = choose|i: int| is_first_under(before, key@, i);
            proof {
                lemma_first_is_unique(before, key@, i as int, first);
            }
            book.set(i, (key, entry));
            assert(book_view(book@) =~= before.update(first, (key@, entry@)));
        },
        None => {
            book.push((key, entry));
            assert(book_view(book@) =~= before.push((key@, entry@)));
        },
    }
}

/// A copy of the entry of `book` under `key`.
fn fetch(book: &Vec<(String, ItemEntry)>, key: &String) -> (r: Option<ItemEntry>)
    ensures
        (match r {
            Some(entry) => lookup(book_view(book@), key@) == Some(entry@),
            None => lookup(book_view(book@), key@) is None,
        }),
{
    match find(book, key) {
        Some(i) => {
            let ghost first = choose|i: int| is_first_under(book_view(book@), key@, i);
            proof {
                lemma_first_is_unique(book_view(book@), key@, i as int, first);
            }
            Some(book[i].1.clone())
        },
        None => None,
    }
}

/// Adds the items to buy to `book`.
fn add_buys(book: &mut Vec<(String, ItemEntry)>, buys: &Vec<BuyCandidate>, quantity: i64)
    ensures
        book_view(final(book)@) == with_buys(book_view(old(book)@), buys@, quantity),
{
    let ghost start = book_view(book@);
    let mut i: usize = 0;
    while i < buys.len()
        invariant
            i <= buys.len(),
            book_view(book@) == with_buys(start, buys@.take(i as int), quantity),
        decreases buys.len() - i,
    {
        let item: &BuyCandidate = &buys[i];
        assert(buys@.take(i + 1).drop_last() =~= buys@.take(i as int));
        if !item.blacklisted {
            let entry: ItemEntry = item.entry.clone().set_buy_quantity(quantity);
            store(book, entry.uuid().clone(), entry);
        }
        i = i + 1;
    }
    assert(buys@.take(i as int) =~= buys@);
}

/// Adds the items in stock to `book`.
fn add_stock(book: &mut Vec<(String, ItemEntry)>, stock: &Vec<StockCandidate>)
    ensures
        book_view(final(book)@) == with_stock(book_view(old(book)@), stock@),
{
    let ghost start = book_view(book@);
    let mut i: usize = 0;
    while i < stock.len()
        invariant
            i <= stock.len(),
            book_view(book@) == with_stock(start, stock@.take(i as int)),
        decreases stock.len() - i,
    {
        let item: &StockCandidate = &stock[i];
        assert(stock@.take(i + 1).drop_last() =~= stock@.take(i as int));
        if !item.blacklisted {
            let entry: ItemEntry = match fetch(book, &item.uuid) {
                Some(already) => {
                    let mut entry: ItemEntry = already;
                    let ghost before = entry.operation@;
                    entry.priority = 1;
                    entry.sell_quantity = item.owned;
                    entry.stock_id = Some(item.id);
                    entry.operation.push("Sell".to_owned());
                    assert(views(entry.operation@) =~= views(before).push("Sell"@));
                    entry
                },
                None => item.entry.clone().set_sell_quantity(item.owned),
            };
            store(book, item.uuid.clone(), entry);
        }
        i = i + 1;
    }
    assert(stock@.take(i as int) =~= stock@);
}

/// Adds the items of the wish list to `book`.
fn add_wishes(book: &mut Vec<(String, ItemEntry)>, wishes: &Vec<WishCandidate>)
    ensures
        book_view(final(book)@) == with_wishes(book_view(old(book)@), wishes@),
{
    let ghost start = book_view(book@);
    let mut i: usize = 0;
    while i < wishes.len()
        invariant
            i <= wishes.len(),
            book_view(book@) == with_wishes(start, wishes@.take(i as int)),
        decreases wishes.len() - i,
    {
        let item: &WishCandidate = &wishes[i];
        assert(wishes@.take(i + 1).drop_last() =~= wishes@.take(i as int));
        if !item.blacklisted {
            let entry: ItemEntry = match fetch(book, &item.uuid) {
                Some(already) => {
                    let mut entry: ItemEntry = already;
                    let ghost before = entry.operation@;
                    entry.priority = 2;
                    entry.buy_quantity = item.quantity;
                    entry.wish_list_id = Some(item.id);
                    entry.operation.push("WishList".to_owned());
                    assert(views(entry.operation@) =~= views(before).push("WishList"@));
                    entry
                },
                None => item.entry.clone(),
            };
            store(book, item.uuid.clone(), entry);
        }
        i = i + 1;
    }
    assert(wishes@.take(i as int) =~= wishes@);
}

/// What was read, or nothing where reading failed.
pub open spec fn rows<T, E>(read: Result<Vec<T>, E>) -> Seq<T> {
    match read {
        Ok(items) => items@,
        Err(_) => seq![],
    }
}

/// The failure that leaves no items to work on, if there is one: the first to read the
/// stock or the wish list, where they count. Neither does where entries are set for
/// debugging, nor where its way of trading is switched off.
pub open spec fn reading_failure<E>(
    settings: Settings,
    stock: Result<Vec<StockCandidate>, E>,
    wishes: Result<Vec<WishCandidate>, E>,
) -> Option<E> {
    let modes = settings.live_scraper.trade_modes@;
    if settings.debugging.live_scraper.entries@.len() > 0 {
        None
    } else if modes.contains(TradeMode::Sell) && stock is Err {
        Some(stock->Err_0)
    } else if modes.contains(TradeMode::WishList) && wishes is Err {
        Some(wishes->Err_0)
    } else {
        None
    }
}

/// What the items to work on say: the entries set for debugging, if there are any, or
/// else those that are [`collected`].
pub open spec fn listed(
    settings: Settings,
    buys: Seq<BuyCandidate>,
    stock: Seq<StockCandidate>,
    wishes: Seq<WishCandidate>,
) -> Seq<ItemEntryView> {
    if settings.debugging.live_scraper.entries@.len() > 0 {
        views(settings.debugging.live_scraper.entries@)
    } else {
        let book = collected(settings, buys, stock, wishes);
        Seq::new(book.len(), |i: int| book[i].1)
    }
}

/// What to log where entries are set for debugging: that they are used.
pub fn preset_notice(component: &str, settings: &Settings) -> (r: Option<LogLine>)
    ensures
        view_of(r) == if settings.debugging.live_scraper.entries@.len() > 0 {
            Some(
                LogLineView {
                    level: LogLevel::Debug,
                    component: component@ + "Debug"@,
                    message: "Debugging enabled for live scraper will use predefined entries"@,
                },
            )
        } else {
            None
        },
{
    if settings.debugging.live_scraper.entries.len() > 0 {
        Some(
            LogLine {
                level: LogLevel::Debug,
                component: followed_by(component, "Debug"),
                message: "Debugging enabled for live scraper will use predefined entries".to_owned(),
            },
        )
    } else {
        None
    }
}

/// The items to work on: the entries set for debugging, if there are any, or else
/// those that the ways of trading that are switched on make of the items to buy,
/// the items in stock and the items of the wish list, each once. Where the stock or
/// the wish list counts and could not be read, that failure takes their place.
pub fn collect_interesting_items<E>(
    settings: &Settings,
    buys: &Vec<BuyCandidate>,
    stock: Result<Vec<StockCandidate>, E>,
    wishes: Result<Vec<WishCandidate>, E>,
) -> (r: Result<Vec<ItemEntry>, E>)
    ensures
        (match reading_failure(*settings, stock, wishes) {
            Some(e) => r == Err::<Vec<ItemEntry>, E>(e),
            None => r matches Ok(items) && views(items@) == listed(
                *settings,
                buys@,
                rows(stock),
                rows(wishes),
            ),
        }),
{
    let preset: &Vec<ItemEntry> = &settings.debugging.live_scraper.entries;
    if preset.len() > 0 {
        let mut entries: Vec<ItemEntry> = Vec::new();
        let mut i: usize = 0;
        while i < preset.len()
            invariant
                i <= preset.len(),
                entries.len() == i,
                forall|j: int| 0 <= j < i ==> (#[trigger] entries[j])@ == preset[j]@,
            decreases preset.len() - i,
        {
            entries.push(preset[i].clone());
            i = i + 1;
        }
        assert(views(entries@) =~= views(preset@));
        return Ok(entries);
    }
    let mut book: Vec<(String, ItemEntry)> = Vec::new();
    assert(book_view(book@) =~= seq![]);
    if settings.live_scraper.has_trade_mode(TradeMode::Buy) {
        add_buys(&mut book, buys, settings.live_scraper.stock_item.buy_quantity);
    }
    if settings.live_scraper.has_trade_mode(TradeMode::Sell) {
        match stock {
            Ok(items) => add_stock(&mut book, &items),
            Err(e) => return Err(e),
        }
    }
    if settings.live_scraper.has_trade_mode(TradeMode::WishList) {
        match wishes {
            Ok(items) => add_wishes(&mut book, &items),
            Err(e) => return Err(e),
        }
    }
    let ghost done = book_view(book@);
    let mut entries: Vec<ItemEntry> = Vec::new();
    let mut i: usize = 0;
    while i < book.len()
        invariant
            i <= book.len(),
            done == book_view(book@),
            entries.len() == i,
            forall|j: int| 0 <= j < i ==> (#[trigger] entries[j])@ == done[j].1,
        decreases book.len() - i,
    {
        assert(done[i as int].1 == book[i as int].1@);
        entries.push(book[i].1.clone());
        i = i + 1;
    }
    assert(views(entries@) =~= Seq::new(done.len(), |j: int| done[j].1));
    Ok(entries)
}

/// Whether no two entries of `book` are under the same key.
pub open spec fn keys_are_distinct(book: Seq<(Seq<char>, ItemEntryView)>) -> bool {
    forall|i: int, j: int|
        0 <= i < j < book.len() ==> (#[trigger] book[i]).0 != (#[trigger] book[j]).0
}

/// What is put into a book is found there, and nothing else changes.
pub proof fn put_is_found_and_leaves_the_rest(
    book: Seq<(Seq<char>, ItemEntryView)>,
    key: Seq<char>,
    entry: ItemEntryView,
    other: Seq<char>,
)
    ensures
        lookup(put(book, key, entry), other) == if other == key {
            Some(entry)
        } else {
            lookup(book, other)
        },
        keys_are_distinct(book) ==> keys_are_distinct(put(book, key, entry)),
{
    let after = put(book, key, entry);
    if exists|i: int| is_first_under(book, key, i) {
        let at = choose|i: int| is_first_under(book, key, i);
        assert(forall|j: int| 0 <= j < book.len() ==> (#[trigger] after[j]).0 == book[j].0);
        assert forall|i: int| is_first_under(after, other, i) == is_first_under(
            book,
            other,
            i,
        ) by {
            if is_first_under(book, other, i) {
                assert(after[i].0 == other);
            }
            if is_first_under(after, other, i) {
                assert forall|j: int| 0 <= j < i implies (#[trigger] book[j]).0 != other by {
                    assert(after[j].0 == book[j].0);
                }
            }
        }
        if other == key {
            assert(is_first_under(after, key, at));
            lemma_first_is_unique(
                after,
                key,
                at,
                choose|i: int| is_first_under(after, other, i),
            );
        } else if exists|i: int| is_first_under(book, other, i) {
            let there = choose|i: int| is_first_under(book, other, i);
            assert(is_first_under(after, other, there));
            lemma_first_is_unique(
                after,
                other,
                there,
                choose|i: int| is_first_under(after, other, i),
            );
        }
    } else {
        let end = book.len() as int;
        assert(forall|j: int| 0 <= j < book.len() ==> after[j] == book[j]);
        assert forall|j: int| 0 <= j < book.len() implies (#[trigger] book[j]).0 != key by {
            lemma_some_is_first(book, key, j);
        }
        if other == key {
            assert(is_first_under(after, key, end));
            lemma_first_is_unique(
                after,
                key,
                end,
                choose|i: int| is_first_under(after, key, i),
            );
        } else if exists|i: int| is_first_under(book, other, i) {
            let there = choose|i: int| is_first_under(book, other, i);
            assert(is_first_under(after, other, there));
            lemma_first_is_unique(
                after,
                other,
                there,
                choose|i: int| is_first_under(after, other, i),
            );
        } else {
            assert forall|i: int| !is_first_under(after, other, i) by {
                if is_first_under(after, other, i) {
                    assert(i < end);
                    assert(is_first_under(book, other, i));
                }
            }
        }
    }
}

/// Where an entry is under `key`, one of those before it or itself is the first.
proof fn lemma_some_is_first(book: Seq<(Seq<char>, ItemEntryView)>, key: Seq<char>, at: int)
    requires
        0 <= at < book.len(),
        forall|i: int| !is_first_under(book, key, i),
    ensures
        book[at].0 != key,
    decreases at,
{
    assert forall|j: int| 0 <= j < at implies (#[trigger] book[j]).0 != key by {
        lemma_some_is_first(book, key, j);
    }
    assert(!is_first_under(book, key, at));
}

/// What the items to buy make of the entry under `key`.
pub open spec fn bought_under(
    key: Seq<char>,
    already: Option<ItemEntryView>,
    buys: Seq<BuyCandidate>,
    quantity: i64,
) -> Option<ItemEntryView>
    decreases buys.len(),
{
    if buys.len() == 0 {
        already
    } else if !buys.last().blacklisted && buys.last().entry.uuid@ == key {
        Some(to_buy(buys.last(), quantity))
    } else {
        bought_under(key, already, buys.drop_last(), quantity)
    }
}

/// What the items in stock make of the entry under `key`.
pub open spec fn sold_under(
    key: Seq<char>,
    already: Option<ItemEntryView>,
    stock: Seq<StockCandidate>,
) -> Option<ItemEntryView>
    decreases stock.len(),
{
    if stock.len() == 0 {
        already
    } else {
        let before = sold_under(key, already, stock.drop_last());
        if !stock.last().blacklisted && stock.last().uuid@ == key {
            Some(to_sell(stock.last(), before))
        } else {
            before
        }
    }
}

/// What the items of the wish list make of the entry under `key`.
pub open spec fn wished_under(
    key: Seq<char>,
    already: Option<ItemEntryView>,
    wishes: Seq<WishCandidate>,
) -> Option<ItemEntryView>
    decreases wishes.len(),
{
    if wishes.len() == 0 {
        already
    } else {
        let before = wished_under(key, already, wishes.drop_last());
        if !wishes.last().blacklisted && wishes.last().uuid@ == key {
            Some(to_wish(wishes.last(), before))
        } else {
            before
        }
    }
}

proof fn lemma_buys_under(
    key: Seq<char>,
    book: Seq<(Seq<char>, ItemEntryView)>,
    buys: Seq<BuyCandidate>,
    quantity: i64,
)
    ensures
        lookup(with_buys(book, buys, quantity), key) == bought_under(
            key,
            lookup(book, key),
            buys,
            quantity,
        ),
        keys_are_distinct(book) ==> keys_are_distinct(with_buys(book, buys, quantity)),
    decreases buys.len(),
{
    if buys.len() > 0 {
        let last = buys.last();
        lemma_buys_under(key, book, buys.drop_last(), quantity);
        put_is_found_and_leaves_the_rest(
            with_buys(book, buys.drop_last(), quantity),
            last.entry.uuid@,
            to_buy(last, quantity),
            key,
        );
    }
}

proof fn lemma_stock_under(
    key: Seq<char>,
    book: Seq<(Seq<char>, ItemEntryView)>,
    stock: Seq<StockCandidate>,
)
    ensures
        lookup(with_stock(book, stock), key) == sold_under(key, lookup(book, key), stock),
        keys_are_distinct(book) ==> keys_are_distinct(with_stock(book, stock)),
    decreases stock.len(),
{
    if stock.len() > 0 {
        let last = stock.last();
        let before = with_stock(book, stock.drop_last());
        lemma_stock_under(key, book, stock.drop_last());
        put_is_found_and_leaves_the_rest(
            before,
            last.uuid@,
            to_sell(last, lookup(before, last.uuid@)),
            key,
        );
    }
}

proof fn lemma_wishes_under(
    key: Seq<char>,
    book: Seq<(Seq<char>, ItemEntryView)>,
    wishes: Seq<WishCandidate>,
)
    ensures
        lookup(with_wishes(book, wishes), key) == wished_under(key, lookup(book, key), wishes),
        keys_are_distinct(book) ==> keys_are_distinct(with_wishes(book, wishes)),
    decreases wishes.len(),
{
    if wishes.len() > 0 {
        let last = wishes.last();
        let before = with_wishes(book, wishes.drop_last());
        lemma_wishes_under(key, book, wishes.drop_last());
        put_is_found_and_leaves_the_rest(
            before,
            last.uuid@,
            to_wish(last, lookup(before, last.uuid@)),
            key,
        );
    }
}

/// What buying, where it is switched on, makes of the item `key`.
pub open spec fn once_bought(
    key: Seq<char>,
    settings: Settings,
    buys: Seq<BuyCandidate>,
) -> Option<ItemEntryView> {
    if settings.live_scraper.trade_modes@.contains(TradeMode::Buy) {
        bought_under(key, None, buys, settings.live_scraper.stock_item.buy_quantity)
    } else {
        None
    }
}

/// What buying and then selling, where they are switched on, make of the item `key`.
pub open spec fn once_sold(
    key: Seq<char>,
    settings: Settings,
    buys: Seq<BuyCandidate>,
    stock: Seq<StockCandidate>,
) -> Option<ItemEntryView> {
    if settings.live_scraper.trade_modes@.contains(TradeMode::Sell) {
        sold_under(key, once_bought(key, settings, buys), stock)
    } else {
        once_bought(key, settings, buys)
    }
}

/// What the ways of trading that are switched on make of the item `key`.
pub open spec fn collected_under(
    key: Seq<char>,
    settings: Settings,
    buys: Seq<BuyCandidate>,
    stock: Seq<StockCandidate>,
    wishes: Seq<WishCandidate>,
) -> Option<ItemEntryView> {
    if settings.live_scraper.trade_modes@.contains(TradeMode::WishList) {
        wished_under(key, once_sold(key, settings, buys, stock), wishes)
    } else {
        once_sold(key, settings, buys, stock)
    }
}

/// Items do not mix: no item is listed twice, and what becomes of an item is decided
/// by what is known of that item alone.
pub proof fn items_do_not_mix(
    key: Seq<char>,
    settings: Settings,
    buys: Seq<BuyCandidate>,
    stock: Seq<StockCandidate>,
    wishes: Seq<WishCandidate>,
)
    ensures
        keys_are_distinct(collected(settings, buys, stock, wishes)),
        lookup(collected(settings, buys, stock, wishes), key) == collected_under(
            key,
            settings,
            buys,
            stock,
            wishes,
        ),
{
    let quantity = settings.live_scraper.stock_item.buy_quantity;
    let nothing: Seq<(Seq<char>, ItemEntryView)> = seq![];
    assert(lookup(nothing, key) is None);
    lemma_buys_under(key, nothing, buys, quantity);
    lemma_stock_under(key, bought(settings, buys), stock);
    lemma_wishes_under(key, bought_and_sold(settings, buys, stock), wishes);
}

/// Whether every entry of `book` is under its own uuid.
spec fn keys_are_uuids(book: Seq<(Seq<char>, ItemEntryView)>) -> bool {
    forall|i: int| 0 <= i < book.len() ==> (#[trigger] book[i]).0 == book[i].1.uuid
}

proof fn lemma_put_keeps_uuids(
    book: Seq<(Seq<char>, ItemEntryView)>,
    key: Seq<char>,
    entry: ItemEntryView,
)
    requires
        keys_are_uuids(book),
        entry.uuid == key,
    ensures
        keys_are_uuids(put(book, key, entry)),
{
}

proof fn lemma_buys_keep_uuids(
    book: Seq<(Seq<char>, ItemEntryView)>,
    buys: Seq<BuyCandidate>,
    quantity: i64,
)
    requires
        keys_are_uuids(book),
    ensures
        keys_are_uuids(with_buys(book, buys, quantity)),
    decreases buys.len(),
{
    if buys.len() > 0 {
        let last = buys.last();
        lemma_buys_keep_uuids(book, buys.drop_last(), quantity);
        lemma_put_keeps_uuids(
            with_buys(book, buys.drop_last(), quantity),
            last.entry.uuid@,
            to_buy(last, quantity),
        );
    }
}

proof fn lemma_stock_keeps_uuids(
    book: Seq<(Seq<char>, ItemEntryView)>,
    stock: Seq<StockCandidate>,
)
    requires
        keys_are_uuids(book),
        forall|i: int| 0 <= i < stock.len() ==> (#[trigger] stock[i]).entry.uuid@ == stock[i].uuid@,
    ensures
        keys_are_uuids(with_stock(book, stock)),
    decreases stock.len(),
{
    if stock.len() > 0 {
        let rest = stock.drop_last();
        let last = stock[stock.len() - 1];
        assert(forall|i: int| 0 <= i < rest.len() ==> rest[i] == stock[i]);
        lemma_stock_keeps_uuids(book, rest);
        let before = with_stock(book, rest);
        lemma_put_keeps_uuids(
            before,
            last.uuid@,
            to_sell(last, lookup(before, last.uuid@)),
        );
    }
}

proof fn lemma_wishes_keep_uuids(
    book: Seq<(Seq<char>, ItemEntryView)>,
    wishes: Seq<WishCandidate>,
)
    requires
        keys_are_uuids(book),
        forall|i: int|
            0 <= i < wishes.len() ==> (#[trigger] wishes[i]).entry.uuid@ == wishes[i].uuid@,
    ensures
        keys_are_uuids(with_wishes(book, wishes)),
    decreases wishes.len(),
{
    if wishes.len() > 0 {
        let rest = wishes.drop_last();
        let last = wishes[wishes.len() - 1];
        assert(forall|i: int| 0 <= i < rest.len() ==> rest[i] == wishes[i]);
        lemma_wishes_keep_uuids(book, rest);
        let before = with_wishes(book, rest);
        lemma_put_keeps_uuids(
            before,
            last.uuid@,
            to_wish(last, lookup(before, last.uuid@)),
        );
    }
}

/// No two listed entries are about the same item: where the items in stock and of the
/// wish list make entries under their own names, the uuids of the listed entries are
/// pairwise different.
pub proof fn listed_uuids_are_distinct(
    settings: Settings,
    buys: Seq<BuyCandidate>,
    stock: Seq<StockCandidate>,
    wishes: Seq<WishCandidate>,
)
    requires
        forall|i: int| 0 <= i < stock.len() ==> (#[trigger] stock[i]).entry.uuid@ == stock[i].uuid@,
        forall|i: int|
            0 <= i < wishes.len() ==> (#[trigger] wishes[i]).entry.uuid@ == wishes[i].uuid@,
    ensures
        ({
            let book = collected(settings, buys, stock, wishes);
            forall|i: int, j: int|
                0 <= i < j < book.len() ==> (#[trigger] book[i]).1.uuid != (#[trigger] book[j]).1.uuid
        }),
{
    let quantity = settings.live_scraper.stock_item.buy_quantity;
    let nothing: Seq<(Seq<char>, ItemEntryView)> = seq![];
    lemma_buys_keep_uuids(nothing, buys, quantity);
    lemma_stock_keeps_uuids(bought(settings, buys), stock);
    lemma_wishes_keep_uuids(bought_and_sold(settings, buys, stock), wishes);
    items_do_not_mix(seq![], settings, buys, stock, wishes);
}

/// Whether the item `key` may be bought, sold or bought for the wish list, by a way
/// of trading that is switched on.
pub open spec fn is_wanted(
    key: Seq<char>,
    settings: Settings,
    buys: Seq<BuyCandidate>,
    stock: Seq<StockCandidate>,
    wishes: Seq<WishCandidate>,
) -> bool {
    let modes = settings.live_scraper.trade_modes@;
    ||| modes.contains(TradeMode::Buy) && exists|i: int|
        0 <= i < buys.len() && !(#[trigger] buys[i]).blacklisted && buys[i].entry.uuid@ == key
    ||| modes.contains(TradeMode::Sell) && exists|i: int|
        0 <= i < stock.len() && !(#[trigger] stock[i]).blacklisted && stock[i].uuid@ == key
    ||| modes.contains(TradeMode::WishList) && exists|i: int|
        0 <= i < wishes.len() && !(#[trigger] wishes[i]).blacklisted && wishes[i].uuid@ == key
}

proof fn lemma_bought_is_some(
    key: Seq<char>,
    already: Option<ItemEntryView>,
    buys: Seq<BuyCandidate>,
    quantity: i64,
)
    ensures
        bought_under(key, already, buys, quantity) is Some <==> already is Some || exists|i: int|
            0 <= i < buys.len() && !(#[trigger] buys[i]).blacklisted && buys[i].entry.uuid@ == key,
    decreases buys.len(),
{
    if buys.len() > 0 {
        let rest = buys.drop_last();
        lemma_bought_is_some(key, already, rest, quantity);
        assert(forall|i: int| 0 <= i < rest.len() ==> rest[i] == buys[i]);
        assert(buys[buys.len() - 1] == buys.last());
        if exists|i: int|
            0 <= i < rest.len() && !(#[trigger] rest[i]).blacklisted && rest[i].entry.uuid@
                == key {
            let i = choose|i: int|
                0 <= i < rest.len() && !(#[trigger] rest[i]).blacklisted && rest[i].entry.uuid@
                    == key;
            assert(!buys[i].blacklisted);
        }
    }
}

proof fn lemma_sold_is_some(
    key: Seq<char>,
    already: Option<ItemEntryView>,
    stock: Seq<StockCandidate>,
)
    ensures
        sold_under(key, already, stock) is Some <==> already is Some || exists|i: int|
            0 <= i < stock.len() && !(#[trigger] stock[i]).blacklisted && stock[i].uuid@ == key,
    decreases stock.len(),
{
    if stock.len() > 0 {
        let rest = stock.drop_last();
        lemma_sold_is_some(key, already, rest);
        assert(forall|i: int| 0 <= i < rest.len() ==> rest[i] == stock[i]);
        assert(stock[stock.len() - 1] == stock.last());
        if exists|i: int|
            0 <= i < rest.len() && !(#[trigger] rest[i]).blacklisted && rest[i].uuid@ == key {
            let i = choose|i: int|
                0 <= i < rest.len() && !(#[trigger] rest[i]).blacklisted && rest[i].uuid@ == key;
            assert(!stock[i].blacklisted);
        }
    }
}

proof fn lemma_wished_is_some(
    key: Seq<char>,
    already: Option<ItemEntryView>,
    wishes: Seq<WishCandidate>,
)
    ensures
        wished_under(key, already, wishes) is Some <==> already is Some || exists|i: int|
            0 <= i < wishes.len() && !(#[trigger] wishes[i]).blacklisted && wishes[i].uuid@ == key,
        already is Some && (exists|i: int|
            0 <= i < wishes.len() && !(#[trigger] wishes[i]).blacklisted && wishes[i].uuid@ == key)
            ==> wished_under(key, already, wishes)->0.priority == 2,
    decreases wishes.len(),
{
    if wishes.len() > 0 {
        let rest = wishes.drop_last();
        lemma_wished_is_some(key, already, rest);
        assert(forall|i: int| 0 <= i < rest.len() ==> rest[i] == wishes[i]);
        assert(wishes[wishes.len() - 1] == wishes.last());
        if exists|i: int|
            0 <= i < rest.len() && !(#[trigger] rest[i]).blacklisted && rest[i].uuid@ == key {
            let i = choose|i: int|
                0 <= i < rest.len() && !(#[trigger] rest[i]).blacklisted && rest[i].uuid@ == key;
            assert(!wishes[i].blacklisted);
        }
        if exists|i: int|
            0 <= i < wishes.len() && !(#[trigger] wishes[i]).blacklisted && wishes[i].uuid@
                == key {
            let i = choose|i: int|
                0 <= i < wishes.len() && !(#[trigger] wishes[i]).blacklisted && wishes[i].uuid@
                    == key;
            if i < rest.len() {
                assert(!rest[i].blacklisted);
            }
        }
    }
}

/// An item is listed exactly where some way of trading that is switched on wants it
/// and does not have it on its blacklist.
pub proof fn listed_items_are_those_wanted(
    key: Seq<char>,
    settings: Settings,
    buys: Seq<BuyCandidate>,
    stock: Seq<StockCandidate>,
    wishes: Seq<WishCandidate>,
)
    ensures
        lookup(collected(settings, buys, stock, wishes), key) is Some <==> is_wanted(
            key,
            settings,
            buys,
            stock,
            wishes,
        ),
{
    let quantity = settings.live_scraper.stock_item.buy_quantity;
    items_do_not_mix(key, settings, buys, stock, wishes);
    lemma_bought_is_some(key, None, buys, quantity);
    lemma_sold_is_some(key, once_bought(key, settings, buys), stock);
    lemma_wished_is_some(key, once_sold(key, settings, buys, stock), wishes);
}

/// The wish list has the last word: an item that is bought or sold anyway and is
/// wished for as well has priority 2.
pub proof fn wished_items_have_priority(
    key: Seq<char>,
    settings: Settings,
    buys: Seq<BuyCandidate>,
    stock: Seq<StockCandidate>,
    wishes: Seq<WishCandidate>,
    wish: int,
)
    requires
        settings.live_scraper.trade_modes@.contains(TradeMode::WishList),
        is_wanted(key, settings, buys, stock, seq![]),
        0 <= wish < wishes.len(),
        wishes[wish].uuid@ == key,
        !wishes[wish].blacklisted,
    ensures
        lookup(collected(settings, buys, stock, wishes), key) matches Some(entry)
            && entry.priority == 2,
{
    let quantity = settings.live_scraper.stock_item.buy_quantity;
    items_do_not_mix(key, settings, buys, stock, wishes);
    lemma_bought_is_some(key, None, buys, quantity);
    lemma_sold_is_some(key, once_bought(key, settings, buys), stock);
    lemma_wished_is_some(key, once_sold(key, settings, buys, stock), wishes);
}

/// What a book with distinct keys holds is what is found in it.
proof fn lemma_held_is_found(
    book: Seq<(Seq<char>, ItemEntryView)>,
    key: Seq<char>,
    entry: ItemEntryView,
)
    requires
        keys_are_distinct(book),
    ensures
        book.contains((key, entry)) <==> lookup(book, key) == Some(entry),
{
    if book.contains((key, entry)) {
        let i = choose|i: int| 0 <= i < book.len() && book[i] == (key, entry);
        assert(is_first_under(book, key, i));
        let first = choose|i: int| is_first_under(book, key, i);
        lemma_first_is_unique(book, key, i, first);
    }
    if lookup(book, key) == Some(entry) {
        let first = choose|i: int| is_first_under(book, key, i);
        assert(book[first] == (key, entry));
    }
}

/// What is held after an entry was put in.
proof fn lemma_held_after_put(
    book: Seq<(Seq<char>, ItemEntryView)>,
    key: Seq<char>,
    entry: ItemEntryView,
)
    requires
        keys_are_distinct(book),
    ensures
        keys_are_distinct(put(book, key, entry)),
        put(book, key, entry).contains((key, entry)),
        forall|other: Seq<char>, e: ItemEntryView|
            other != key ==> (#[trigger] put(book, key, entry).contains((other, e))
                <==> book.contains((other, e))),
{
    let after = put(book, key, entry);
    put_is_found_and_leaves_the_rest(book, key, entry, key);
    lemma_held_is_found(after, key, entry);
    assert forall|other: Seq<char>, e: ItemEntryView| other != key implies (
    #[trigger] after.contains((other, e)) <==> book.contains((other, e))) by {
        put_is_found_and_leaves_the_rest(book, key, entry, other);
        lemma_held_is_found(after, other, e);
        lemma_held_is_found(book, other, e);
    }
}

/// One more item to buy, where buying is switched on and the item is not on the blacklist,
/// is listed as the entry that it makes by itself, in place of any before it, with nothing
/// changed but the quantity to buy, which is that of the settings. No other item changes,
/// and no item comes up twice.
pub proof fn one_more_item_to_buy(
    settings: Settings,
    buys: Seq<BuyCandidate>,
    more: BuyCandidate,
)
    ensures
        ({
            let before = collected(settings, buys, seq![], seq![]);
            let after = collected(settings, buys.push(more), seq![], seq![]);
            let on = settings.live_scraper.trade_modes@.contains(TradeMode::Buy) && !more.blacklisted;
            &&& !on ==> after == before
            &&& forall|key: Seq<char>, e: ItemEntryView|
                key != more.entry.uuid@ ==> (#[trigger] after.contains((key, e)) <==> before.contains(
                    (key, e),
                ))
            &&& on ==> exists|now: ItemEntryView|
                {
                    &&& #[trigger] after.contains((more.entry.uuid@, now))
                    &&& now.uuid == more.entry@.uuid
                    &&& now.wfm_url == more.entry@.wfm_url
                    &&& now.priority == more.entry@.priority
                    &&& now.sell_quantity == more.entry@.sell_quantity
                    &&& now.stock_id == more.entry@.stock_id
                    &&& now.wish_list_id == more.entry@.wish_list_id
                    &&& now.operation == more.entry@.operation
                    &&& now.sub_type == more.entry@.sub_type
                    &&& now.buy_quantity == settings.live_scraper.stock_item.buy_quantity
                }
            &&& forall|i: int, j: int|
                0 <= i < j < after.len() ==> (#[trigger] after[i]).0 != (#[trigger] after[j]).0
        }),
{
    let quantity = settings.live_scraper.stock_item.buy_quantity;
    let before = collected(settings, buys, seq![], seq![]);
    items_do_not_mix(seq![], settings, buys, seq![], seq![]);
    assert(buys.push(more).drop_last() =~= buys);
    lemma_held_after_put(before, more.entry.uuid@, to_buy(more, quantity));
    let after = collected(settings, buys.push(more), seq![], seq![]);
    if settings.live_scraper.trade_modes@.contains(TradeMode::Buy) && !more.blacklisted {
        assert(buys.push(more).last() == more);
        assert(after == put(before, more.entry.uuid@, to_buy(more, quantity)));
        assert(after.contains((more.entry.uuid@, to_buy(more, quantity))));
    } else {
        assert(after == before);
    }
}

/// One more item in stock, where selling is switched on and the item is not on the
/// blacklist, is merged into the entry that is there: it gets priority 1, the quantity that
/// is owned, its place in the stock and one more thing to do, and nothing else changes.
/// Where none is there, it is listed as the entry that it makes by itself, with the
/// quantity that is owned. No other item changes, and no item comes up twice.
pub proof fn one_more_item_in_stock(
    settings: Settings,
    buys: Seq<BuyCandidate>,
    stock: Seq<StockCandidate>,
    more: StockCandidate,
)
    ensures
        ({
            let before = collected(settings, buys, stock, seq![]);
            let after = collected(settings, buys, stock.push(more), seq![]);
            let on = settings.live_scraper.trade_modes@.contains(TradeMode::Sell) && !more.blacklisted;
            &&& !on ==> after == before
            &&& forall|key: Seq<char>, e: ItemEntryView|
                key != more.uuid@ ==> (#[trigger] after.contains((key, e)) <==> before.contains(
                    (key, e),
                ))
            &&& on ==> forall|e: ItemEntryView| #[trigger]
                before.contains((more.uuid@, e)) ==> exists|now: ItemEntryView|
                    {
                        &&& #[trigger] after.contains((more.uuid@, now))
                        &&& now.uuid == e.uuid
                        &&& now.wfm_url == e.wfm_url
                        &&& now.buy_quantity == e.buy_quantity
                        &&& now.wish_list_id == e.wish_list_id
                        &&& now.sub_type == e.sub_type
                        &&& now.priority == 1
                        &&& now.sell_quantity == more.owned
                        &&& now.stock_id == Some(more.id)
                        &&& now.operation == e.operation.push("Sell"@)
                    }
            &&& on && (forall|e: ItemEntryView| !before.contains((more.uuid@, e)))
                ==> exists|now: ItemEntryView|
                {
                    &&& #[trigger] after.contains((more.uuid@, now))
                    &&& now.uuid == more.entry@.uuid
                    &&& now.wfm_url == more.entry@.wfm_url
                    &&& now.priority == more.entry@.priority
                    &&& now.buy_quantity == more.entry@.buy_quantity
                    &&& now.stock_id == more.entry@.stock_id
                    &&& now.wish_list_id == more.entry@.wish_list_id
                    &&& now.operation == more.entry@.operation
                    &&& now.sub_type == more.entry@.sub_type
                    &&& now.sell_quantity == more.owned
                }
            &&& forall|i: int, j: int|
                0 <= i < j < after.len() ==> (#[trigger] after[i]).0 != (#[trigger] after[j]).0
        }),
{
    let before = collected(settings, buys, stock, seq![]);
    let already = lookup(before, more.uuid@);
    items_do_not_mix(seq![], settings, buys, stock, seq![]);
    assert(stock.push(more).drop_last() =~= stock);
    lemma_held_after_put(before, more.uuid@, to_sell(more, already));
    let after = collected(settings, buys, stock.push(more), seq![]);
    if settings.live_scraper.trade_modes@.contains(TradeMode::Sell) && !more.blacklisted {
        assert(stock.push(more).last() == more);
        assert(after == put(before, more.uuid@, to_sell(more, already)));
        assert(after.contains((more.uuid@, to_sell(more, already))));
    } else {
        assert(after == before);
    }
    assert forall|e: ItemEntryView| #[trigger] before.contains((more.uuid@, e)) implies already
        == Some(e) by {
        lemma_held_is_found(before, more.uuid@, e);
    }
    if already is Some {
        lemma_held_is_found(before, more.uuid@, already->0);
    }
}

/// One more wish, where the wish list is switched on and the item is not on the blacklist,
/// is merged into the entry that is there: it gets priority 2, the quantity that is wished
/// for, its place on the wish list and one more thing to do, and nothing else changes.
/// Where none is there, it is listed as the entry that it makes by itself. No other item
/// changes, and no item comes up twice.
pub proof fn one_more_wish(
    settings: Settings,
    buys: Seq<BuyCandidate>,
    stock: Seq<StockCandidate>,
    wishes: Seq<WishCandidate>,
    more: WishCandidate,
)
    ensures
        ({
            let before = collected(settings, buys, stock, wishes);
            let after = collected(settings, buys, stock, wishes.push(more));
            let on = settings.live_scraper.trade_modes@.contains(TradeMode::WishList) && !more.blacklisted;
            &&& !on ==> after == before
            &&& forall|key: Seq<char>, e: ItemEntryView|
                key != more.uuid@ ==> (#[trigger] after.contains((key, e)) <==> before.contains(
                    (key, e),
                ))
            &&& on ==> forall|e: ItemEntryView| #[trigger]
                before.contains((more.uuid@, e)) ==> exists|now: ItemEntryView|
                    {
                        &&& #[trigger] after.contains((more.uuid@, now))
                        &&& now.uuid == e.uuid
                        &&& now.wfm_url == e.wfm_url
                        &&& now.sell_quantity == e.sell_quantity
                        &&& now.stock_id == e.stock_id
                        &&& now.sub_type == e.sub_type
                        &&& now.priority == 2
                        &&& now.buy_quantity == more.quantity
                        &&& now.wish_list_id == Some(more.id)
                        &&& now.operation == e.operation.push("WishList"@)
                    }
            &&& on && (forall|e: ItemEntryView| !before.contains((more.uuid@, e)))
                ==> exists|now: ItemEntryView|
                {
                    &&& #[trigger] after.contains((more.uuid@, now))
                    &&& now.uuid == more.entry@.uuid
                    &&& now.wfm_url == more.entry@.wfm_url
                    &&& now.priority == more.entry@.priority
                    &&& now.buy_quantity == more.entry@.buy_quantity
                    &&& now.sell_quantity == more.entry@.sell_quantity
                    &&& now.stock_id == more.entry@.stock_id
                    &&& now.wish_list_id == more.entry@.wish_list_id
                    &&& now.operation == more.entry@.operation
                    &&& now.sub_type == more.entry@.sub_type
                }
            &&& forall|i: int, j: int|
                0 <= i < j < after.len() ==> (#[trigger] after[i]).0 != (#[trigger] after[j]).0
        }),
{
    let before = collected(settings, buys, stock, wishes);
    let already = lookup(before, more.uuid@);
    items_do_not_mix(seq![], settings, buys, stock, wishes);
    assert(wishes.push(more).drop_last() =~= wishes);
    lemma_held_after_put(before, more.uuid@, to_wish(more, already));
    let after = collected(settings, buys, stock, wishes.push(more));
    if settings.live_scraper.trade_modes@.contains(TradeMode::WishList) && !more.blacklisted {
        assert(wishes.push(more).last() == more);
        assert(after == put(before, more.uuid@, to_wish(more, already)));
        assert(after.contains((more.uuid@, to_wish(more, already))));
    } else {
        assert(after == before);
    }
    assert forall|e: ItemEntryView| #[trigger] before.contains((more.uuid@, e)) implies already
        == Some(e) by {
        lemma_held_is_found(before, more.uuid@, e);
    }
    if already is Some {
        lemma_held_is_found(before, more.uuid@, already->0);
    }
}

/// Of no items nothing is listed.
pub proof fn nothing_comes_of_nothing(settings: Settings)
    ensures
        collected(settings, seq![], seq![], seq![]).len() == 0,
{
}

/// A way of trading that is switched off has no say: its items might as well not be there.
pub proof fn switched_off_ways_have_no_say(
    settings: Settings,
    buys: Seq<BuyCandidate>,
    stock: Seq<StockCandidate>,
    wishes: Seq<WishCandidate>,
)
    ensures
        ({
            let modes = settings.live_scraper.trade_modes@;
            let all = collected(settings, buys, stock, wishes);
            &&& !modes.contains(TradeMode::Buy) ==> all == collected(
                settings,
                seq![],
                stock,
                wishes,
            )
            &&& !modes.contains(TradeMode::Sell) ==> all == collected(
                settings,
                buys,
                seq![],
                wishes,
            )
            &&& !modes.contains(TradeMode::WishList) ==> all == collected(
                settings,
                buys,
                stock,
                seq![],
            )
        }),
{
}

/// The entries set for debugging are listed as they are. Otherwise the first failure to
/// read the stock or the wish list ends the work, where its way of trading is switched on,
/// and without one the entries of the book are listed. A list that was not read counts as
/// empty.
pub proof fn collected_entries_are_listed<E>(
    settings: &Settings,
    buys: &Vec<BuyCandidate>,
    stock: Result<Vec<StockCandidate>, E>,
    wishes: Result<Vec<WishCandidate>, E>,
    r: Result<Vec<ItemEntry>, E>,
    in_stock: Seq<StockCandidate>,
    wished: Seq<WishCandidate>,
)
    requires
        call_ensures(collect_interesting_items::<E>, (settings, buys, stock, wishes), r),
        stock matches Ok(items) ==> in_stock == items@,
        stock is Err ==> in_stock.len() == 0,
        wishes matches Ok(items) ==> wished == items@,
        wishes is Err ==> wished.len() == 0,
    ensures
        ({
            let preset = settings.debugging.live_scraper.entries@;
            let modes = settings.live_scraper.trade_modes@;
            let no_stock = modes.contains(TradeMode::Sell) && stock is Err;
            let no_wishes = modes.contains(TradeMode::WishList) && wishes is Err;
            let book = collected(*settings, buys@, in_stock, wished);
            &&& preset.len() > 0 ==> r is Ok && r->Ok_0@.len() == preset.len() && forall|i: int|
                0 <= i < preset.len() ==> (#[trigger] r->Ok_0@[i])@ == preset[i]@
            &&& preset.len() == 0 && no_stock ==> r is Err && r->Err_0 == stock->Err_0
            &&& preset.len() == 0 && !no_stock && no_wishes ==> r is Err && r->Err_0
                == wishes->Err_0
            &&& preset.len() == 0 && !no_stock && !no_wishes ==> r is Ok && r->Ok_0@.len()
                == book.len() && forall|i: int|
                0 <= i < book.len() ==> (#[trigger] r->Ok_0@[i])@ == book[i].1
        }),
{
    let preset = settings.debugging.live_scraper.entries@;
    assert(in_stock =~= rows(stock));
    assert(wished =~= rows(wishes));
    if let Ok(items) = r {
        assert(views(items@).len() == items@.len());
        assert(forall|i: int| 0 <= i < items@.len() ==> (#[trigger] items@[i])@ == views(items@)[i]);
        assert(forall|i: int| 0 <= i < preset.len() ==> views(preset)[i] == preset[i]@);
    }
}

/// Whether `e` is about the same item and sub type as `own`.
pub open spec fn keeps_item_of(e: ItemEntryView, own: ItemEntryView) -> bool {
    e.uuid == own.uuid && e.wfm_url == own.wfm_url && e.sub_type == own.sub_type
}

/// Whether all entries of `book` are about items and sub types that satisfy `origin`.
spec fn all_from(
    book: Seq<(Seq<char>, ItemEntryView)>,
    origin: spec_fn(ItemEntryView) -> bool,
) -> bool {
    &&& forall|i: int| 0 <= i < book.len() ==> origin((#[trigger] book[i]).1)
    &&& forall|e: ItemEntryView, own: ItemEntryView|
        origin(own) && #[trigger] keeps_item_of(e, own) ==> origin(e)
}

proof fn lemma_buys_come_from(
    book: Seq<(Seq<char>, ItemEntryView)>,
    buys: Seq<BuyCandidate>,
    quantity: i64,
    origin: spec_fn(ItemEntryView) -> bool,
)
    requires
        all_from(book, origin),
        forall|i: int|
            0 <= i < buys.len() && !(#[trigger] buys[i]).blacklisted ==> origin(buys[i].entry@),
    ensures
        all_from(with_buys(book, buys, quantity), origin),
    decreases buys.len(),
{
    if buys.len() > 0 {
        let rest = buys.drop_last();
        let last = buys[buys.len() - 1];
        assert(forall|i: int| 0 <= i < rest.len() ==> rest[i] == buys[i]);
        lemma_buys_come_from(book, rest, quantity, origin);
        assert(keeps_item_of(to_buy(last, quantity), last.entry@));
    }
}

proof fn lemma_stock_comes_from(
    book: Seq<(Seq<char>, ItemEntryView)>,
    stock: Seq<StockCandidate>,
    origin: spec_fn(ItemEntryView) -> bool,
)
    requires
        all_from(book, origin),
        forall|i: int|
            0 <= i < stock.len() && !(#[trigger] stock[i]).blacklisted ==> origin(stock[i].entry@),
    ensures
        all_from(with_stock(book, stock), origin),
    decreases stock.len(),
{
    if stock.len() > 0 {
        let rest = stock.drop_last();
        let last = stock[stock.len() - 1];
        assert(forall|i: int| 0 <= i < rest.len() ==> rest[i] == stock[i]);
        lemma_stock_comes_from(book, rest, origin);
        let before = with_stock(book, rest);
        let already = lookup(before, last.uuid@);
        assert(already matches Some(e) ==> keeps_item_of(to_sell(last, already), e));
        assert(already is None ==> keeps_item_of(to_sell(last, already), last.entry@));
    }
}

proof fn lemma_wishes_come_from(
    book: Seq<(Seq<char>, ItemEntryView)>,
    wishes: Seq<WishCandidate>,
    origin: spec_fn(ItemEntryView) -> bool,
)
    requires
        all_from(book, origin),
        forall|i: int|
            0 <= i < wishes.len() && !(#[trigger] wishes[i]).blacklisted ==> origin(
                wishes[i].entry@,
            ),
    ensures
        all_from(with_wishes(book, wishes), origin),
    decreases wishes.len(),
{
    if wishes.len() > 0 {
        let rest = wishes.drop_last();
        let last = wishes[wishes.len() - 1];
        assert(forall|i: int| 0 <= i < rest.len() ==> rest[i] == wishes[i]);
        lemma_wishes_come_from(book, rest, origin);
        let before = with_wishes(book, rest);
        let already = lookup(before, last.uuid@);
        assert(already matches Some(e) ==> keeps_item_of(to_wish(last, already), e));
        assert(already is None ==> keeps_item_of(to_wish(last, already), last.entry@));
    }
}

/// Every listed entry is about an item and a sub type that some candidate brought in:
/// whatever is merged into it, its names and its sub type are those of the entry that an
/// item to buy, in stock or of the wish list made by itself.
pub proof fn listed_entries_keep_their_item(
    settings: Settings,
    buys: Seq<BuyCandidate>,
    stock: Seq<StockCandidate>,
    wishes: Seq<WishCandidate>,
    at: int,
)
    requires
        0 <= at < collected(settings, buys, stock, wishes).len(),
    ensures
        ({
            let e = collected(settings, buys, stock, wishes)[at].1;
            ||| exists|i: int|
                0 <= i < buys.len() && !(#[trigger] buys[i]).blacklisted && e.uuid
                    == buys[i].entry@.uuid && e.wfm_url == buys[i].entry@.wfm_url && e.sub_type
                    == buys[i].entry@.sub_type
            ||| exists|i: int|
                0 <= i < stock.len() && !(#[trigger] stock[i]).blacklisted && e.uuid
                    == stock[i].entry@.uuid && e.wfm_url == stock[i].entry@.wfm_url && e.sub_type
                    == stock[i].entry@.sub_type
            ||| exists|i: int|
                0 <= i < wishes.len() && !(#[trigger] wishes[i]).blacklisted && e.uuid
                    == wishes[i].entry@.uuid && e.wfm_url == wishes[i].entry@.wfm_url && e.sub_type
                    == wishes[i].entry@.sub_type
        }),
{
    let origin = |e: ItemEntryView|
        {
            ||| exists|i: int|
                0 <= i < buys.len() && !(#[trigger] buys[i]).blacklisted && keeps_item_of(
                    e,
                    buys[i].entry@,
                )
            ||| exists|i: int|
                0 <= i < stock.len() && !(#[trigger] stock[i]).blacklisted && keeps_item_of(
                    e,
                    stock[i].entry@,
                )
            ||| exists|i: int|
                0 <= i < wishes.len() && !(#[trigger] wishes[i]).blacklisted && keeps_item_of(
                    e,
                    wishes[i].entry@,
                )
        };
    let nothing: Seq<(Seq<char>, ItemEntryView)> = seq![];
    let quantity = settings.live_scraper.stock_item.buy_quantity;
    assert(all_from(nothing, origin));
    lemma_buys_come_from(nothing, buys, quantity, origin);
    lemma_stock_comes_from(bought(settings, buys), stock, origin);
    lemma_wishes_come_from(bought_and_sold(settings, buys, stock), wishes, origin);
    assert(origin(collected(settings, buys, stock, wishes)[at].1));
}

proof fn lemma_single_buy(
    key: Seq<char>,
    already: Option<ItemEntryView>,
    buys: Seq<BuyCandidate>,
    quantity: i64,
    at: int,
)
    requires
        0 <= at < buys.len(),
        !buys[at].blacklisted,
        buys[at].entry.uuid@ == key,
        forall|i: int|
            at < i < buys.len() && !(#[trigger] buys[i]).blacklisted ==> buys[i].entry.uuid@ != key,
    ensures
        bought_under(key, already, buys, quantity) == Some(to_buy(buys[at], quantity)),
    decreases buys.len(),
{
    if at < buys.len() - 1 {
        let rest = buys.drop_last();
        assert(forall|i: int| 0 <= i < rest.len() ==> rest[i] == buys[i]);
        assert(buys.last() == buys[buys.len() - 1]);
        lemma_single_buy(key, already, rest, quantity, at);
    }
}

proof fn lemma_no_stock_changes_nothing(
    key: Seq<char>,
    already: Option<ItemEntryView>,
    stock: Seq<StockCandidate>,
)
    requires
        forall|i: int|
            0 <= i < stock.len() && !(#[trigger] stock[i]).blacklisted ==> stock[i].uuid@ != key,
    ensures
        sold_under(key, already, stock) == already,
    decreases stock.len(),
{
    if stock.len() > 0 {
        let rest = stock.drop_last();
        assert(forall|i: int| 0 <= i < rest.len() ==> rest[i] == stock[i]);
        assert(stock.last() == stock[stock.len() - 1]);
        lemma_no_stock_changes_nothing(key, already, rest);
    }
}

proof fn lemma_no_wish_changes_nothing(
    key: Seq<char>,
    already: Option<ItemEntryView>,
    wishes: Seq<WishCandidate>,
)
    requires
        forall|i: int|
            0 <= i < wishes.len() && !(#[trigger] wishes[i]).blacklisted ==> wishes[i].uuid@ != key,
    ensures
        wished_under(key, already, wishes) == already,
    decreases wishes.len(),
{
    if wishes.len() > 0 {
        let rest = wishes.drop_last();
        assert(forall|i: int| 0 <= i < rest.len() ==> rest[i] == wishes[i]);
        assert(wishes.last() == wishes[wishes.len() - 1]);
        lemma_no_wish_changes_nothing(key, already, rest);
    }
}

/// An item that is only to be bought is listed as the entry of the last candidate for it,
/// in every respect but the quantity to buy, which is that of the settings.
pub proof fn items_only_to_buy_are_listed_as_they_are<E>(
    settings: &Settings,
    buys: &Vec<BuyCandidate>,
    stock: Vec<StockCandidate>,
    wishes: Vec<WishCandidate>,
    r: Result<Vec<ItemEntry>, E>,
    at: int,
)
    requires
        call_ensures(
            collect_interesting_items::<E>,
            (settings, buys, Ok(stock), Ok(wishes)),
            r,
        ),
        settings.debugging.live_scraper.entries@.len() == 0,
        settings.live_scraper.trade_modes@.contains(TradeMode::Buy),
        0 <= at < buys@.len(),
        !buys@[at].blacklisted,
        forall|i: int|
            at < i < buys@.len() && !(#[trigger] buys@[i]).blacklisted ==> buys@[i].entry.uuid@
                != buys@[at].entry.uuid@,
        forall|i: int|
            0 <= i < stock@.len() && !(#[trigger] stock@[i]).blacklisted ==> stock@[i].uuid@
                != buys@[at].entry.uuid@,
        forall|i: int|
            0 <= i < wishes@.len() && !(#[trigger] wishes@[i]).blacklisted ==> wishes@[i].uuid@
                != buys@[at].entry.uuid@,
    ensures
        r is Ok,
        exists|k: int|
            {
                let own = buys@[at].entry;
                &&& 0 <= k < r->Ok_0@.len()
                &&& (#[trigger] r->Ok_0@[k]).uuid@ == own.uuid@
                &&& r->Ok_0@[k].wfm_url@ == own.wfm_url@
                &&& r->Ok_0@[k].priority == own.priority
                &&& r->Ok_0@[k].buy_quantity == settings.live_scraper.stock_item.buy_quantity
                &&& r->Ok_0@[k].sell_quantity == own.sell_quantity
                &&& r->Ok_0@[k].stock_id == own.stock_id
                &&& r->Ok_0@[k].wish_list_id == own.wish_list_id
                &&& views(r->Ok_0@[k].operation@) == views(own.operation@)
                &&& view_of(r->Ok_0@[k].sub_type) == view_of(own.sub_type)
            },
{
    let key = buys@[at].entry.uuid@;
    let quantity = settings.live_scraper.stock_item.buy_quantity;
    let book = collected(*settings, buys@, stock@, wishes@);
    let entry = to_buy(buys@[at], quantity);
    items_do_not_mix(key, *settings, buys@, stock@, wishes@);
    lemma_single_buy(key, None, buys@, quantity, at);
    lemma_no_stock_changes_nothing(key, once_bought(key, *settings, buys@), stock@);
    lemma_no_wish_changes_nothing(key, once_sold(key, *settings, buys@, stock@), wishes@);
    lemma_held_is_found(book, key, entry);
    let k = choose|k: int| 0 <= k < book.len() && book[k] == (key, entry);
    collected_entries_are_listed(
        settings,
        buys,
        Ok::<Vec<StockCandidate>, E>(stock),
        Ok::<Vec<WishCandidate>, E>(wishes),
        r,
        stock@,
        wishes@,
    );
    let listed = r->Ok_0@[k];
    assert(listed@ == entry);
    assert(listed@.uuid == listed.uuid@ && listed@.wfm_url == listed.wfm_url@ && listed@.priority
        == listed.priority && listed@.buy_quantity == listed.buy_quantity && listed@.sell_quantity
        == listed.sell_quantity && listed@.stock_id == listed.stock_id && listed@.wish_list_id
        == listed.wish_list_id && listed@.operation == views(listed.operation@) && listed@.sub_type
        == view_of(listed.sub_type));
    let own = buys@[at].entry;
    assert(own@.sub_type == view_of(own.sub_type) && own@.operation == views(own.operation@));
}

/// There is something to log exactly where entries are set for debugging.
pub proof fn preset_entries_are_told(component: &str, settings: &Settings, r: Option<LogLine>)
    requires
        call_ensures(preset_notice, (component, settings), r),
    ensures
        r is Some <==> settings.debugging.live_scraper.entries@.len() > 0,
        r matches Some(line) ==> {
            &&& line.level == LogLevel::Debug
            &&& line.component@ == component@ + "Debug"@
            &&& line.message@ == "Debugging enabled for live scraper will use predefined entries"@
        },
{
    if let Some(line) = r {
        assert(line@.level == line.level && line@.component == line.component@ && line@.message
            == line.message@);
    }
}

} // verus!
