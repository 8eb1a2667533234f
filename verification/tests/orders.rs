use live_scraper::model::{
    CacheTradableItem, DebuggingLiveScraper, DebuggingSettings, ItemEntry, LiveScraperSettings,
    Order, OrderDetails, OrderList, OrderType, Settings, StockItemSettings, SubType,
};
use live_scraper::orders::{
    find_existing_order_by_mode, get_order_info, order_details, skip_if_no_market_activity,
};
use live_scraper::progress::{
    fetch_and_cache_orders, handler_wfm_error, keep_written_orders, order_created, order_deleted,
    order_updated, progress_order, ApiError, FetchFailure, LogLevel, LogLine, OrderAction, LOG_FILE,
};

fn ranked(rank: i64) -> SubType {
    SubType { rank: Some(rank), short_display: format!("R {}", rank), ..SubType::default() }
}

fn item() -> CacheTradableItem {
    CacheTradableItem {
        name: "Test Mod".to_string(),
        unique_name: "Test".to_string(),
        wfm_id: "123".to_string(),
        wfm_url_name: "test_mod".to_string(),
        trade_tax: 2000,
        mr_requirement: 0,
        tags: vec!["mod".to_string()],
        wiki_url: "".to_string(),
        image_url: "".to_string(),
        max_rank: Some(5),
        bulk_tradable: false,
        sub_type: None,
    }
}

fn entry() -> ItemEntry {
    ItemEntry {
        uuid: "test_mod-R 0".to_string(),
        wfm_url: "test_mod".to_string(),
        priority: 0,
        buy_quantity: 4,
        sell_quantity: 9,
        stock_id: None,
        wish_list_id: None,
        operation: vec![],
        sub_type: Some(ranked(0)),
    }
}

fn settings(rankless: bool) -> Settings {
    Settings {
        live_scraper: LiveScraperSettings {
            low_rank_mods_rankless_mode: rankless,
            trade_modes: vec![],
            stock_item: StockItemSettings {
                volume_threshold: -1,
                profit_threshold: -1,
                avg_price_cap: -1,
                price_shift_threshold: -1,
                trading_tax_cap: -1,
                min_wtb_profit_margin: -1,
                buy_quantity: 1,
            },
        },
        debugging: DebuggingSettings { live_scraper: DebuggingLiveScraper { entries: vec![] } },
    }
}

fn order(id: &str, item_id: &str, sub_type: Option<SubType>) -> Order {
    Order {
        id: id.to_string(),
        item_id: item_id.to_string(),
        sub_type,
        update_string: format!("u:{}", id),
        details: OrderDetails {
            operation: vec!["Create".to_string(), "Old".to_string()],
            quantity: 77,
            ..OrderDetails::default()
        },
    }
}

fn orders() -> OrderList<Order> {
    let other = SubType { variant: Some("v".to_string()), ..SubType::default() };
    OrderList {
        buy_orders: vec![
            order("b0", "999", Some(ranked(0))),
            order("b1", "123", Some(other)),
            order("b2", "123", Some(ranked(5))),
            order("b3", "123", Some(ranked(0))),
        ],
        sell_orders: vec![order("s0", "123", None)],
    }
}

fn details(operation: &[&str]) -> OrderDetails {
    OrderDetails {
        operation: operation.iter().map(|o| o.to_string()).collect(),
        order_id: "o1".to_string(),
        item_id: "123".to_string(),
        item_name: "Test Mod".to_string(),
        quantity: 4,
        sub_type: Some(ranked(0)),
        update_string: "u".to_string(),
    }
}

#[test]
fn markets_with_an_empty_side_are_skipped() {
    let list = |buy: usize, sell: usize| OrderList {
        buy_orders: vec![0u8; buy],
        sell_orders: vec![0u8; sell],
    };
    assert_eq!(skip_if_no_market_activity(&list(1, 1)), (false, "".to_string()));
    assert_eq!(skip_if_no_market_activity(&list(0, 1)), (true, "buying".to_string()));
    assert_eq!(skip_if_no_market_activity(&list(1, 0)), (true, "selling".to_string()));
    assert_eq!(skip_if_no_market_activity(&list(0, 0)), (true, "selling".to_string()));
}

#[test]
fn orders_are_found_at_any_rank_where_the_rank_is_ignored() {
    let never = |_: &OrderList<Order>, _: &String, _: Option<SubType>, _: OrderType| -> Option<Order> {
        panic!("nothing is searched")
    };
    let find = |side: OrderType, wanted: Option<SubType>| {
        let e = ItemEntry { sub_type: wanted, ..entry() };
        find_existing_order_by_mode(&item(), &e, &orders(), side, &settings(true), never).map(|o| o.id)
    };
    assert_eq!(find(OrderType::Buy, Some(ranked(0))), Some("b2".to_string()));
    assert_eq!(find(OrderType::Buy, Some(ranked(3))), Some("b2".to_string()));
    assert_eq!(find(OrderType::Sell, Some(ranked(0))), Some("s0".to_string()));
    assert_eq!(find(OrderType::Buy, None), Some("b2".to_string()));
    assert_eq!(find(OrderType::Sell, None), Some("s0".to_string()));
    let charged = SubType { charges: Some(1), ..SubType::default() };
    assert_eq!(find(OrderType::Sell, Some(charged)), None);
}

#[test]
fn orders_are_searched_where_the_rank_counts() {
    let found = find_existing_order_by_mode(
        &item(),
        &entry(),
        &orders(),
        OrderType::Buy,
        &settings(false),
        |list: &OrderList<Order>, id: &String, sub_type: Option<SubType>, side: OrderType| {
            assert_eq!(id, "123");
            assert_eq!(sub_type, Some(ranked(0)));
            assert_eq!(side, OrderType::Buy);
            Some(list.buy_orders[3].clone())
        },
    );
    assert_eq!(found.map(|o| o.id), Some("b3".to_string()));
}

#[test]
fn details_of_an_existing_order_are_updated() {
    let r = get_order_info(
        &item(),
        &entry(),
        &orders(),
        OrderType::Buy,
        &settings(true),
        |_: &OrderList<Order>, _: &String, _: Option<SubType>, _: OrderType| None,
    );
    assert_eq!(
        r,
        OrderDetails {
            operation: vec!["Update".to_string()],
            order_id: "b2".to_string(),
            item_id: "123".to_string(),
            item_name: "Test Mod".to_string(),
            quantity: 4,
            sub_type: Some(ranked(0)),
            update_string: "u:b2".to_string(),
        }
    );
}

#[test]
fn details_of_a_new_order_start_empty() {
    let r = get_order_info(
        &item(),
        &entry(),
        &orders(),
        OrderType::Sell,
        &settings(false),
        |_: &OrderList<Order>, _: &String, _: Option<SubType>, _: OrderType| None,
    );
    assert_eq!(
        r,
        OrderDetails {
            operation: vec![],
            order_id: "".to_string(),
            item_id: "123".to_string(),
            item_name: "Test Mod".to_string(),
            quantity: 9,
            sub_type: Some(ranked(0)),
            update_string: "".to_string(),
        }
    );
}

#[test]
fn quantities_wrap_around() {
    let quantity = |buy_quantity: i64| {
        let e = ItemEntry { buy_quantity, ..entry() };
        order_details(&item(), &e, OrderType::Buy, None).quantity
    };
    assert_eq!(quantity(u32::MAX as i64), u32::MAX);
    assert_eq!(quantity(u32::MAX as i64 + 3), 2);
    assert_eq!(quantity(-1), u32::MAX);
    assert_eq!(quantity(i64::MIN), 0);
}

#[test]
fn orders_are_created_updated_and_deleted() {
    let act = |operation: &[&str], can_create: bool| {
        progress_order("C", &details(operation), OrderType::Sell, 15, Some(2), can_create)
    };
    assert_eq!(
        act(&["Create"], true),
        OrderAction::Create {
            item_id: "123".to_string(),
            order_type: OrderType::Sell,
            platinum: 15,
            quantity: 4,
            visible: true,
            per_trade: Some(2),
            sub_type: Some(ranked(0)),
            properties: details(&["Create"]),
        }
    );
    let update = |operation: &[&str]| OrderAction::Update {
        order_id: "o1".to_string(),
        platinum: 15,
        quantity: 4,
        per_trade: Some(2),
        properties: details(operation),
    };
    assert_eq!(act(&["Update"], true), update(&["Update"]));
    assert_eq!(act(&["Update", "Create"], false), update(&["Update", "Create"]));
    assert!(matches!(act(&["Update", "Create"], true), OrderAction::Create { .. }));
    assert_eq!(act(&["Update", "Delete"], true), OrderAction::Delete { order_id: "o1".to_string() });
    assert_eq!(
        act(&["Create", "Update", "Delete"], true),
        OrderAction::Delete { order_id: "o1".to_string() }
    );
}

#[test]
fn orders_are_skipped_with_a_reason() {
    let reason = |operation: &[&str], can_create: bool| {
        match progress_order("C", &details(operation), OrderType::Buy, 1, None, can_create) {
            OrderAction::Skip { reason } => reason,
            other => panic!("{:?}", other),
        }
    };
    let full = LogLine {
        level: LogLevel::Warning,
        component: "CSkip".to_string(),
        message: "Item Test Mod has reached the order limit. Skipping.".to_string(),
    };
    let poor = LogLine {
        level: LogLevel::Warning,
        component: "CSkip".to_string(),
        message: "Item Test Mod is not optimal for buying. Skipping.".to_string(),
    };
    assert_eq!(reason(&["Create"], false), full);
    assert_eq!(reason(&[], false), full);
    assert_eq!(reason(&[], true), poor);
    assert_eq!(reason(&["Create", "Delete"], true), poor);
    assert_eq!(reason(&["Delete"], true), poor);
}

#[test]
fn answers_are_logged_and_shown() {
    let done = order_created("C", &details(&[]), Ok("new".to_string())).unwrap();
    assert_eq!(done.log.level, LogLevel::Info);
    assert_eq!(done.log.component, "CCreateSuccess");
    assert_eq!(done.log.message, "Created order for item Test Mod: new");
    assert!(done.refresh_shown_orders);

    let done = order_updated("C", &details(&[]), Ok("u".to_string())).unwrap();
    assert_eq!(done.log.component, "CUpdateSuccess");
    assert_eq!(done.log.message, "Updated order for item Test Mod: o1");
    assert!(!done.refresh_shown_orders);
    assert!(order_updated("C", &details(&[]), Ok("v".to_string())).unwrap().refresh_shown_orders);

    let done = order_deleted("C", &details(&[]), Ok(())).unwrap();
    assert_eq!(done.log.component, "CDeleteSuccess");
    assert_eq!(done.log.message, "Deleted order for item Test Mod: o1");
    assert!(done.refresh_shown_orders);
}

#[test]
fn failures_name_the_action() {
    let failure = order_created("C", &details(&[]), Err(ApiError::Other)).unwrap_err();
    assert_eq!(failure.report.component, "C:Create");
    assert_eq!(failure.report.message, "Failed to create order for item Test Mod");
    let failure = order_updated("C", &details(&[]), Err(ApiError::NotFound)).unwrap_err();
    assert_eq!(failure.report.component, "C:Update");
    assert_eq!(failure.report.message, "Failed to update order for item Test Mod");
    assert!(failure.refresh.is_some());
    let failure = order_deleted("C", &details(&[]), Err(ApiError::RequestError)).unwrap_err();
    assert_eq!(failure.report.component, "C:Delete");
    assert_eq!(failure.report.message, "Failed to delete order for item Test Mod");
    assert!(failure.refresh.is_none());
    assert_eq!(LOG_FILE, "progress_order.log");
}

#[test]
fn failures_are_warnings_or_errors() {
    let kind = |e: ApiError| {
        let f = handler_wfm_error("C", "Create", "m".to_string(), e);
        if let Some(line) = &f.refresh {
            assert_eq!(line.level, LogLevel::Trace);
            assert_eq!(line.component, "C:Create");
            assert_eq!(line.message, "Refreshed cached orders due to order limit exceeded");
        }
        assert_eq!(f.report.message, "m");
        (f.report.level, f.refresh.is_some())
    };
    assert_eq!(kind(ApiError::AuctionLimitExceeded), (LogLevel::Warning, false));
    assert_eq!(kind(ApiError::OrderLimitExceeded), (LogLevel::Warning, true));
    assert_eq!(kind(ApiError::OrderLimitExceededSamePrice), (LogLevel::Warning, true));
    assert_eq!(kind(ApiError::NotFound), (LogLevel::Warning, true));
    assert_eq!(kind(ApiError::RequestError), (LogLevel::Error, false));
    assert_eq!(kind(ApiError::Other), (LogLevel::Error, false));
}

fn fetch(
    cache_path: Option<&str>,
    reply: Result<u8, ApiError>,
    written: Result<(), String>,
) -> (Result<u8, FetchFailure<String>>, Vec<(String, u8)>) {
    let mut writes: Vec<(String, u8)> = Vec::new();
    let r = fetch_and_cache_orders("C", "test_mod", cache_path, reply, |path: &&str, orders: &u8| {
        writes.push((path.to_string(), *orders));
        written
    });
    (r, writes)
}

#[test]
fn failed_fetches_are_reported() {
    let (r, writes) = fetch(Some("p"), Err(ApiError::RequestError), Ok(()));
    assert!(writes.is_empty());
    assert_eq!(
        r,
        Err(FetchFailure::Market {
            report: LogLine {
                level: LogLevel::Error,
                component: "C:FetchAndCacheOrders".to_string(),
                message: "Failed to get live orders for item test_mod".to_string(),
            }
        })
    );
    match fetch(None, Err(ApiError::NotFound), Ok(())).0 {
        Err(FetchFailure::Market { report }) => assert_eq!(report.level, LogLevel::Critical),
        other => panic!("{:?}", other),
    }
}

#[test]
fn fetched_orders_are_written_where_there_is_a_path() {
    assert_eq!(fetch(None, Ok(3), Err("unused".to_string())), (Ok(3), vec![]));
    assert_eq!(fetch(Some("p"), Ok(3), Ok(())), (Ok(3), vec![("p".to_string(), 3)]));
    assert_eq!(
        fetch(Some("p"), Ok(3), Err("full".to_string())),
        (Err(FetchFailure::Write { error: "full".to_string() }), vec![("p".to_string(), 3)])
    );
    let lost: Result<u8, FetchFailure<u8>> = keep_written_orders(3, Err(9));
    assert_eq!(lost, Err(FetchFailure::Write { error: 9 }));
}
