use live_scraper::entries::{
    collect_interesting_items, preset_notice, BuyCandidate, StockCandidate, WishCandidate,
};
use live_scraper::model::{
    DebuggingLiveScraper, DebuggingSettings, ItemEntry, LiveScraperSettings, Settings,
    StockItemSettings, TradeMode,
};
use live_scraper::progress::{LogLevel, LogLine};

fn entry(uuid: &str) -> ItemEntry {
    ItemEntry {
        uuid: uuid.to_string(),
        wfm_url: uuid.to_string(),
        priority: 0,
        buy_quantity: 0,
        sell_quantity: 0,
        stock_id: None,
        wish_list_id: None,
        operation: vec!["Fresh".to_string()],
        sub_type: None,
    }
}

fn buy(uuid: &str, blacklisted: bool) -> BuyCandidate {
    BuyCandidate { entry: entry(uuid), blacklisted }
}

fn stock(uuid: &str, id: i64, owned: i64, blacklisted: bool) -> StockCandidate {
    StockCandidate { uuid: uuid.to_string(), id, owned, entry: entry(uuid), blacklisted }
}

fn wish(uuid: &str, id: i64, quantity: i64, blacklisted: bool) -> WishCandidate {
    WishCandidate { uuid: uuid.to_string(), id, quantity, entry: entry(uuid), blacklisted }
}

fn settings(trade_modes: &[TradeMode]) -> Settings {
    Settings {
        live_scraper: LiveScraperSettings {
            low_rank_mods_rankless_mode: false,
            trade_modes: trade_modes.to_vec(),
            stock_item: StockItemSettings {
                volume_threshold: -1,
                profit_threshold: -1,
                avg_price_cap: -1,
                price_shift_threshold: -1,
                trading_tax_cap: -1,
                min_wtb_profit_margin: -1,
                buy_quantity: 4,
            },
        },
        debugging: DebuggingSettings { live_scraper: DebuggingLiveScraper { entries: vec![] } },
    }
}

fn collect(
    settings: &Settings,
    buys: Vec<BuyCandidate>,
    stock: Vec<StockCandidate>,
    wishes: Vec<WishCandidate>,
) -> Vec<ItemEntry> {
    collect_interesting_items::<String>(settings, &buys, Ok(stock), Ok(wishes)).unwrap()
}

const ALL: [TradeMode; 3] = [TradeMode::Buy, TradeMode::Sell, TradeMode::WishList];

#[test]
fn entries_of_one_item_are_merged() {
    let r = collect(
        &settings(&ALL),
        vec![buy("a", false), buy("b", false)],
        vec![stock("a", 11, 3, false), stock("c", 12, 5, false)],
        vec![wish("a", 21, 2, false), wish("c", 22, 6, false), wish("d", 23, 7, false)],
    );
    let a = ItemEntry {
        priority: 2,
        buy_quantity: 2,
        sell_quantity: 3,
        stock_id: Some(11),
        wish_list_id: Some(21),
        operation: vec!["Fresh".to_string(), "Sell".to_string(), "WishList".to_string()],
        ..entry("a")
    };
    let b = ItemEntry { buy_quantity: 4, ..entry("b") };
    let c = ItemEntry {
        priority: 2,
        buy_quantity: 6,
        sell_quantity: 5,
        wish_list_id: Some(22),
        operation: vec!["Fresh".to_string(), "WishList".to_string()],
        ..entry("c")
    };
    assert_eq!(r, vec![a, b, c, entry("d")]);
}

#[test]
fn no_two_entries_have_the_same_uuid() {
    let r = collect(
        &settings(&ALL),
        vec![buy("a", false), buy("a", false), buy("b", false)],
        vec![stock("b", 1, 1, false), stock("c", 2, 1, false), stock("c", 3, 1, false)],
        vec![wish("c", 4, 1, false), wish("a", 5, 1, false), wish("d", 6, 1, false)],
    );
    let mut uuids: Vec<String> = r.into_iter().map(|e| e.uuid).collect();
    assert_eq!(uuids.len(), 4);
    uuids.sort();
    uuids.dedup();
    assert_eq!(uuids.len(), 4);
}

#[test]
fn stock_has_priority_one() {
    let r = collect(
        &settings(&[TradeMode::Sell, TradeMode::Buy]),
        vec![buy("a", false)],
        vec![stock("a", 11, 3, false)],
        vec![wish("a", 21, 2, false)],
    );
    assert_eq!(r.len(), 1);
    assert_eq!(r[0].priority, 1);
    assert_eq!(r[0].buy_quantity, 4);
    assert_eq!(r[0].stock_id, Some(11));
    assert_eq!(r[0].wish_list_id, None);
}

#[test]
fn blacklisted_items_are_left_out() {
    let r = collect(
        &settings(&ALL),
        vec![buy("a", true)],
        vec![stock("b", 1, 1, true)],
        vec![wish("c", 2, 2, true), wish("a", 3, 3, false)],
    );
    assert_eq!(r, vec![entry("a")]);
}

#[test]
fn modes_that_are_off_do_nothing() {
    let only = |modes: &[TradeMode]| {
        collect(
            &settings(modes),
            vec![buy("a", false)],
            vec![stock("b", 1, 1, false)],
            vec![wish("c", 2, 2, false)],
        )
        .into_iter()
        .map(|e| e.uuid)
        .collect::<Vec<String>>()
    };
    assert!(only(&[]).is_empty());
    assert_eq!(only(&[TradeMode::Buy]), vec!["a".to_string()]);
    assert_eq!(only(&[TradeMode::Sell]), vec!["b".to_string()]);
    assert_eq!(only(&[TradeMode::WishList]), vec!["c".to_string()]);
}

#[test]
fn the_last_of_equal_buys_stays() {
    let mut second = buy("a", false);
    second.entry.wfm_url = "second".to_string();
    let r = collect(
        &settings(&[TradeMode::Buy]),
        vec![buy("a", false), buy("b", false), second],
        vec![],
        vec![],
    );
    assert_eq!(r.len(), 2);
    assert_eq!(r[0].wfm_url, "second");
}

#[test]
fn debugging_entries_replace_all_others() {
    let mut preset = settings(&ALL);
    preset.debugging.live_scraper.entries = vec![entry("x"), entry("x")];
    let r = collect(&preset, vec![buy("a", false)], vec![], vec![]);
    assert_eq!(r, vec![entry("x"), entry("x")]);
}

#[test]
fn failed_reads_are_handed_on_where_they_count() {
    let buys = vec![buy("a", false)];
    let no_stock = || Err("stock".to_string());
    let no_wishes = || Err("wishes".to_string());
    let r = collect_interesting_items(&settings(&ALL), &buys, no_stock(), no_wishes());
    assert_eq!(r, Err("stock".to_string()));
    let r = collect_interesting_items(&settings(&ALL), &buys, Ok(vec![]), no_wishes());
    assert_eq!(r, Err("wishes".to_string()));
    let wish_only = settings(&[TradeMode::WishList]);
    let r = collect_interesting_items(&wish_only, &buys, no_stock(), no_wishes());
    assert_eq!(r, Err("wishes".to_string()));
    let r = collect_interesting_items(&settings(&[TradeMode::Buy]), &buys, no_stock(), no_wishes());
    assert_eq!(r, Ok(vec![ItemEntry { buy_quantity: 4, ..entry("a") }]));
    let mut preset = settings(&ALL);
    preset.debugging.live_scraper.entries = vec![entry("x")];
    let r = collect_interesting_items(&preset, &buys, no_stock(), no_wishes());
    assert_eq!(r, Ok(vec![entry("x")]));
}

#[test]
fn debugging_entries_are_worth_a_notice() {
    let mut preset = settings(&ALL);
    assert_eq!(preset_notice("Item", &preset), None);
    preset.debugging.live_scraper.entries = vec![entry("x")];
    let line = LogLine {
        level: LogLevel::Debug,
        component: "ItemDebug".to_string(),
        message: "Debugging enabled for live scraper will use predefined entries".to_string(),
    };
    assert_eq!(preset_notice("Item", &preset), Some(line));
}
