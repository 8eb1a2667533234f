use live_scraper::amount::Amount;
use live_scraper::average::{highest_price, lowest_price, total_volume, weighted_average};
use live_scraper::interesting::{
    aggregate_groups, get_interesting_items, interesting_items_key, is_disabled,
    nothing_interesting_notice, passes_thresholds,
};
use live_scraper::knapsack::knapsack;
use live_scraper::model::{
    CacheSubType, CacheTradableItem, DebuggingLiveScraper, DebuggingSettings, ItemPriceInfo,
    LiveScraperSettings, OrderList, Settings, StockItemSettings, SubType,
};
use live_scraper::progress::{LogLevel, LogLine};
use live_scraper::rankless::{
    aggregate_rankless_item_price, build_uuid, filter_market_orders_by_mode,
    get_effective_item_price, is_same_sub_type_without_rank, low_rank_mod_ids, max_rank,
    min_rank_sub_type, prices_of_item, should_ignore_rank_for_low_rank_mod,
    should_ignore_rank_for_low_rank_mod_with_flag,
};

#[derive(Debug, Clone, Copy, PartialEq)]
struct Plat(f64);

impl Amount for Plat {
    fn whole(n: i64) -> Plat {
        Plat(n as f64)
    }
    fn finite(self) -> bool {
        self.0.is_finite()
    }
    fn below(self, other: Plat) -> bool {
        self.0 < other.0
    }
    fn same(self, other: Plat) -> bool {
        self.0 == other.0
    }
    fn sum(self, other: Plat) -> Plat {
        Plat(self.0 + other.0)
    }
    fn product(self, other: Plat) -> Plat {
        Plat(self.0 * other.0)
    }
    fn quotient(self, other: Plat) -> Plat {
        Plat(self.0 / other.0)
    }
    fn zero_is_itself() {}
    fn one_is_above_zero() {}
    fn above_is_above_less(_less: i64, _more: i64, _amount: Plat) {}
    fn from_int(n: i64) -> Plat {
        Plat(n as f64)
    }
    fn is_finite(self) -> bool {
        self.0.is_finite()
    }
    fn less_than(self, other: Plat) -> bool {
        self.0 < other.0
    }
    fn equals(self, other: Plat) -> bool {
        self.0 == other.0
    }
    fn plus(self, other: Plat) -> Plat {
        Plat(self.0 + other.0)
    }
    fn times(self, other: Plat) -> Plat {
        Plat(self.0 * other.0)
    }
    fn divided_by(self, other: Plat) -> Plat {
        Plat(self.0 / other.0)
    }
}

fn ranked(rank: i64) -> SubType {
    SubType {
        rank: Some(rank),
        short_display: format!("R {}", rank),
        ..SubType::default()
    }
}

fn variant(name: &str) -> SubType {
    SubType {
        variant: Some(name.to_string()),
        short_display: name.to_string(),
        ..SubType::default()
    }
}

fn sample_price(rank: i64, volume: f64, avg_price: f64) -> ItemPriceInfo<Plat> {
    ItemPriceInfo {
        wfm_url: "test_mod".to_string(),
        wfm_id: "123".to_string(),
        uuid: format!("test_mod-R {}", rank),
        volume: Plat(volume),
        max_price: Plat(avg_price + 2.0),
        min_price: Plat(avg_price - 2.0),
        avg_price: Plat(avg_price),
        moving_avg: Some(Plat(avg_price + 1.0)),
        median: Plat(avg_price),
        profit: Plat(10.0),
        profit_margin: Plat(25.0),
        trading_tax: 2000,
        week_price_shift: Plat(3.0),
        sub_type: Some(ranked(rank)),
    }
}

fn sample_item(tags: &[&str], max_rank: Option<i64>) -> CacheTradableItem {
    CacheTradableItem {
        name: "Test".to_string(),
        unique_name: "Test".to_string(),
        wfm_id: "123".to_string(),
        wfm_url_name: "test_mod".to_string(),
        trade_tax: 2000,
        mr_requirement: 0,
        tags: tags.iter().map(|t| t.to_string()).collect(),
        wiki_url: "".to_string(),
        image_url: "".to_string(),
        max_rank,
        bulk_tradable: false,
        sub_type: None,
    }
}

fn stock_settings() -> StockItemSettings {
    StockItemSettings {
        volume_threshold: -1,
        profit_threshold: -1,
        avg_price_cap: -1,
        price_shift_threshold: -1,
        trading_tax_cap: -1,
        min_wtb_profit_margin: -1,
        buy_quantity: 1,
    }
}

fn settings(rankless: bool) -> Settings {
    Settings {
        live_scraper: LiveScraperSettings {
            low_rank_mods_rankless_mode: rankless,
            trade_modes: vec![],
            stock_item: stock_settings(),
        },
        debugging: DebuggingSettings { live_scraper: DebuggingLiveScraper { entries: vec![] } },
    }
}

#[test]
fn aggregate_rankless_profile_uses_weighted_averages() {
    let prices = vec![sample_price(0, 10.0, 20.0), sample_price(3, 30.0, 40.0)];
    let aggregated = aggregate_rankless_item_price(&prices).expect("should aggregate");

    assert_eq!(aggregated.wfm_id, "123");
    assert_eq!(aggregated.sub_type.and_then(|sub| sub.rank), Some(0));
    assert!((aggregated.avg_price.0 - 35.0).abs() < f64::EPSILON);
    assert!((aggregated.moving_avg.map(|m| m.0).unwrap_or_default() - 36.0).abs() < f64::EPSILON);
}

#[test]
fn low_rank_mod_flag_is_respected() {
    let item = CacheTradableItem {
        name: "Test".to_string(),
        unique_name: "Test".to_string(),
        wfm_id: "123".to_string(),
        wfm_url_name: "test_mod".to_string(),
        trade_tax: 2000,
        mr_requirement: 0,
        tags: vec!["mod".to_string()],
        wiki_url: "".to_string(),
        image_url: "".to_string(),
        max_rank: Some(5),
        bulk_tradable: false,
        sub_type: None,
    };

    assert!(should_ignore_rank_for_low_rank_mod_with_flag(true, &item));
    assert!(!should_ignore_rank_for_low_rank_mod_with_flag(false, &item));
}

#[test]
fn aggregate_fills_in_every_field() {
    let mut prices = vec![sample_price(3, 30.0, 40.0), sample_price(0, 10.0, 20.0)];
    prices[1].trading_tax = 9;
    prices[1].profit = Plat(30.0);
    prices[1].week_price_shift = Plat(f64::NAN);
    let a = aggregate_rankless_item_price(&prices).unwrap();
    assert_eq!(a.wfm_url, "test_mod");
    assert_eq!(a.uuid, "test_mod-R 0");
    assert_eq!(a.volume, Plat(40.0));
    assert_eq!(a.max_price, Plat(42.0));
    assert_eq!(a.min_price, Plat(18.0));
    assert_eq!(a.median, Plat(35.0));
    assert_eq!(a.profit, Plat(15.0));
    assert_eq!(a.profit_margin, Plat(25.0));
    assert_eq!(a.trading_tax, 2000);
    assert_eq!(a.week_price_shift, Plat(3.0));
    assert_eq!(a.sub_type, Some(ranked(0)));
    let none: Vec<ItemPriceInfo<Plat>> = vec![];
    assert!(aggregate_rankless_item_price(&none).is_none());
}

#[test]
fn missing_moving_average_falls_back_on_the_average_price() {
    let mut prices = vec![sample_price(0, 10.0, 20.0)];
    prices[0].moving_avg = None;
    assert_eq!(aggregate_rankless_item_price(&prices).unwrap().moving_avg, Some(Plat(20.0)));
    prices[0].avg_price = Plat(0.0);
    assert_eq!(aggregate_rankless_item_price(&prices).unwrap().moving_avg, None);
    prices[0].moving_avg = Some(Plat(7.0));
    assert_eq!(aggregate_rankless_item_price(&prices).unwrap().moving_avg, Some(Plat(7.0)));
}

#[test]
fn weighted_average_of_plain_values() {
    assert_eq!(weighted_average(&[(Plat(20.0), Plat(10.0)), (Plat(40.0), Plat(30.0))]), Plat(35.0));
    assert_eq!(weighted_average::<Plat>(&[]), Plat(0.0));
    assert_eq!(weighted_average(&[(20i64, 10i64), (40, 30)]), 35);
    assert_eq!(weighted_average(&[(-7i64, 1i64), (0, 1)]), -3);
}

#[test]
fn average_leaves_out_values_that_are_not_finite() {
    let with = [
        (Plat(f64::NAN), Plat(100.0)),
        (Plat(20.0), Plat(10.0)),
        (Plat(f64::INFINITY), Plat(1.0)),
        (Plat(40.0), Plat(30.0)),
    ];
    assert_eq!(weighted_average(&with), Plat(35.0));
    assert_eq!(weighted_average(&with[1..]), Plat(35.0));
}

#[test]
fn average_of_nothing_finite() {
    assert_eq!(weighted_average(&[(Plat(f64::NAN), Plat(1.0))]), Plat(0.0));
    let none = [(Plat(f64::INFINITY), Plat(2.0)), (Plat(f64::NEG_INFINITY), Plat(3.0))];
    assert_eq!(weighted_average(&none), Plat(0.0));
}

#[test]
fn average_counts_bad_weights_as_one() {
    let bad = [
        (Plat(10.0), Plat(f64::NAN)),
        (Plat(20.0), Plat(0.0)),
        (Plat(30.0), Plat(-5.0)),
        (Plat(40.0), Plat(f64::INFINITY)),
    ];
    assert_eq!(weighted_average(&bad), Plat(25.0));
}

#[test]
fn average_lies_between_the_values() {
    let pairs = [(-9i64, 4i64), (2, 0), (5, 3), (-9, 1), (5, -7)];
    let r = weighted_average(&pairs);
    assert_eq!(r, -2);
    assert!(lowest_price(&[-9i64, 2, 5]) <= r && r <= highest_price(&[-9i64, 2, 5]));
    assert_eq!(weighted_average(&[(7i64, 3i64), (7, 2)]), 7);
    assert_eq!(weighted_average(&[(-7i64, 3i64), (-7, 2)]), -7);
    let at_the_limit = [(i64::MAX, 1i64), (i64::MAX, 1)];
    assert_eq!(weighted_average(&at_the_limit), i64::MAX / 2);
}

#[test]
fn only_nothing_interesting_is_worth_a_notice() {
    let none: Vec<ItemPriceInfo<Plat>> = vec![];
    let line = LogLine {
        level: LogLevel::Info,
        component: "LiveScraper:Helpers:GetInterestingItems".to_string(),
        message: "No interesting items found for settings: a:1".to_string(),
    };
    assert_eq!(nothing_interesting_notice(false, &none, "a:1"), Some(line));
    assert_eq!(nothing_interesting_notice(true, &none, "a:1"), None);
    let some = vec![sample_price(0, 10.0, 20.0)];
    assert_eq!(nothing_interesting_notice(false, &some, "a:1"), None);
}

#[test]
fn extremes_skip_what_compares_to_nothing() {
    let prices = [Plat(f64::NAN), Plat(3.0), Plat(1.5), Plat(f64::NAN), Plat(2.0)];
    assert_eq!(lowest_price(&prices), Plat(1.5));
    assert_eq!(highest_price(&prices), Plat(3.0));
    assert_eq!(lowest_price(&[Plat(-1.5), Plat(2.0), Plat(-3.0)]), Plat(-3.0));
    assert_eq!(highest_price(&[Plat(-1.5), Plat(-2.0), Plat(-3.0)]), Plat(-1.5));
    assert_eq!(lowest_price(&[Plat(f64::NAN)]), Plat(0.0));
    assert_eq!(highest_price::<Plat>(&[]), Plat(0.0));
    assert_eq!(lowest_price(&[Plat(f64::NEG_INFINITY), Plat(1.0)]), Plat(0.0));
    assert_eq!(highest_price(&[Plat(f64::INFINITY), Plat(1.0)]), Plat(0.0));
}

#[test]
fn volumes_below_zero_count_for_nothing() {
    let volumes = [Plat(1.5), Plat(-4.0), Plat(f64::NAN), Plat(f64::INFINITY), Plat(2.0)];
    assert_eq!(total_volume(&volumes), Plat(3.5));
}

#[test]
fn whole_units_stay_within_their_limits() {
    assert_eq!(i64::MAX.plus(1), i64::MAX);
    assert_eq!(i64::MIN.plus(-1), i64::MIN);
    assert_eq!(i64::MIN.times(-1), i64::MAX);
    assert_eq!(i64::MIN.times(2), i64::MIN);
    assert_eq!(7i64.divided_by(2), 3);
    assert_eq!((-7i64).divided_by(2), -3);
    assert_eq!(i64::MIN.divided_by(1), i64::MIN);
}

#[test]
fn low_rank_mods_are_told_by_tag_and_rank() {
    assert!(should_ignore_rank_for_low_rank_mod_with_flag(true, &sample_item(&["MODS"], Some(1))));
    assert!(should_ignore_rank_for_low_rank_mod_with_flag(true, &sample_item(&["a", "Mod"], Some(9))));
    assert!(!should_ignore_rank_for_low_rank_mod_with_flag(true, &sample_item(&["mod"], Some(10))));
    assert!(!should_ignore_rank_for_low_rank_mod_with_flag(true, &sample_item(&["mod"], Some(0))));
    assert!(!should_ignore_rank_for_low_rank_mod_with_flag(true, &sample_item(&["mod"], None)));
    assert!(!should_ignore_rank_for_low_rank_mod_with_flag(true, &sample_item(&["modular"], Some(5))));
    assert!(!should_ignore_rank_for_low_rank_mod_with_flag(true, &sample_item(&["m\u{f6}d"], Some(5))));
    assert!(!should_ignore_rank_for_low_rank_mod_with_flag(true, &sample_item(&[], Some(5))));
    assert!(should_ignore_rank_for_low_rank_mod(&settings(true), &sample_item(&["mod"], Some(5))));
    assert!(!should_ignore_rank_for_low_rank_mod(&settings(false), &sample_item(&["mod"], Some(5))));
}

#[test]
fn max_rank_falls_back_on_the_sub_type() {
    let mut item = sample_item(&["mod"], None);
    assert_eq!(max_rank(&item), None);
    item.sub_type = Some(CacheSubType { max_rank: Some(3) });
    assert_eq!(max_rank(&item), Some(3));
    item.max_rank = Some(10);
    assert_eq!(max_rank(&item), Some(10));
}

#[test]
fn low_rank_mod_ids_come_once() {
    let mut other = sample_item(&["mod"], Some(3));
    other.wfm_id = "9".to_string();
    let items = vec![
        sample_item(&["mod"], Some(5)),
        other,
        sample_item(&["mods"], Some(2)),
        sample_item(&["arcane"], Some(5)),
    ];
    assert_eq!(low_rank_mod_ids(true, &items), vec!["123".to_string(), "9".to_string()]);
    assert!(low_rank_mod_ids(false, &items).is_empty());
}

#[test]
fn least_rank_wins_over_rankless_sub_types() {
    let price = |sub_type: Option<SubType>| ItemPriceInfo {
        sub_type,
        ..sample_price(0, 1.0, 1.0)
    };
    let all = vec![
        price(None),
        price(Some(variant("a"))),
        price(Some(ranked(3))),
        price(Some(ranked(1))),
        price(Some(variant("b"))),
        price(Some(ranked(1))),
    ];
    assert_eq!(min_rank_sub_type(&all), Some(ranked(1)));
    assert_eq!(min_rank_sub_type(&all[..2]), Some(variant("a")));
    assert_eq!(min_rank_sub_type(&all[..1]), None);
    let top = vec![price(Some(ranked(i64::MAX))), price(Some(variant("c")))];
    assert_eq!(min_rank_sub_type(&top), Some(variant("c")));
    assert_eq!(min_rank_sub_type(&top[..1]), None);
}

#[test]
fn uuid_holds_the_short_text_of_the_sub_type() {
    assert_eq!(build_uuid("x", &None), "x");
    assert_eq!(build_uuid("x", &Some(SubType::default())), "x");
    assert_eq!(build_uuid("x", &Some(ranked(2))), "x-R 2");
}

#[test]
fn sub_types_agree_whatever_the_rank() {
    assert!(is_same_sub_type_without_rank(&Some(ranked(0)), &Some(ranked(5))));
    assert!(is_same_sub_type_without_rank(&None, &Some(ranked(5))));
    assert!(is_same_sub_type_without_rank(&None, &None));
    assert!(!is_same_sub_type_without_rank(&Some(variant("a")), &Some(variant("b"))));
    assert!(!is_same_sub_type_without_rank(&Some(variant("a")), &None));
    let charged = SubType { charges: Some(1), ..SubType::default() };
    let amber = SubType { amber_stars: Some(1), ..SubType::default() };
    let cyan = SubType { cyan_stars: Some(1), ..SubType::default() };
    assert!(!is_same_sub_type_without_rank(&Some(charged), &None));
    assert!(!is_same_sub_type_without_rank(&None, &Some(amber)));
    assert!(!is_same_sub_type_without_rank(&Some(cyan), &Some(ranked(1))));
}

#[test]
fn effective_price_is_searched_or_aggregated() {
    let item = sample_item(&["mod"], Some(5));
    let mut stranger = sample_price(0, 1.0, 1.0);
    stranger.wfm_id = "7".to_string();
    let prices = vec![sample_price(0, 10.0, 20.0), stranger, sample_price(3, 30.0, 40.0)];
    let rankless: Result<ItemPriceInfo<Plat>, String> =
        get_effective_item_price(&item, None, &settings(true), &prices, |_: &String, _: Option<SubType>| {
            panic!("nothing is searched")
        });
    assert_eq!(rankless.unwrap().avg_price, Plat(35.0));

    let found: Result<ItemPriceInfo<Plat>, String> = get_effective_item_price(
        &item,
        Some(ranked(3)),
        &settings(false),
        &prices,
        |url: &String, sub_type: Option<SubType>| {
            assert_eq!(url, "test_mod");
            assert_eq!(sub_type, Some(ranked(3)));
            Ok(Some(sample_price(3, 30.0, 40.0)))
        },
    );
    assert_eq!(found.unwrap().avg_price, Plat(40.0));

    let missing: Result<ItemPriceInfo<Plat>, String> =
        get_effective_item_price(&item, None, &settings(false), &prices, |_: &String, _: Option<SubType>| {
            Ok(None)
        });
    let missing = missing.unwrap();
    assert_eq!(missing.avg_price, Plat(0.0));
    assert_eq!(missing.wfm_id, "");

    let failed: Result<ItemPriceInfo<Plat>, String> =
        get_effective_item_price(&item, None, &settings(false), &prices, |_: &String, _: Option<SubType>| {
            Err("down".to_string())
        });
    assert_eq!(failed.unwrap_err(), "down");

    let unknown = CacheTradableItem { wfm_id: "0".to_string(), ..sample_item(&["mod"], Some(5)) };
    let nothing: Result<ItemPriceInfo<Plat>, String> =
        get_effective_item_price(&unknown, None, &settings(true), &prices, |_: &String, _: Option<SubType>| {
            Ok(None)
        });
    assert_eq!(nothing.unwrap().wfm_id, "");
}

#[test]
fn market_orders_are_filtered_unless_the_rank_is_ignored() {
    let item = sample_item(&["mod"], Some(5));
    let drop_buyers = |orders: OrderList<i32>, sub_type: Option<SubType>, flag: bool| {
        assert_eq!(sub_type, Some(ranked(1)));
        assert!(!flag);
        OrderList { buy_orders: vec![], sell_orders: orders.sell_orders }
    };
    let mut orders = OrderList { buy_orders: vec![1], sell_orders: vec![2] };
    filter_market_orders_by_mode(&mut orders, Some(ranked(1)), &item, &settings(true), drop_buyers);
    assert_eq!(orders, OrderList { buy_orders: vec![1], sell_orders: vec![2] });
    filter_market_orders_by_mode(&mut orders, Some(ranked(1)), &item, &settings(false), drop_buyers);
    assert_eq!(orders, OrderList { buy_orders: vec![], sell_orders: vec![2] });
}

#[test]
fn disabled_thresholds_are_below_zero() {
    assert!(is_disabled(-1));
    assert!(is_disabled(i64::MIN));
    assert!(!is_disabled(0));
    assert!(!is_disabled(1));
}

#[test]
fn thresholds_are_strict_or_not_as_set() {
    let item = sample_price(0, 10.0, 20.0);
    assert!(passes_thresholds(&stock_settings(), &item));
    assert!(passes_thresholds(&StockItemSettings { volume_threshold: 9, ..stock_settings() }, &item));
    assert!(!passes_thresholds(&StockItemSettings { volume_threshold: 10, ..stock_settings() }, &item));
    assert!(passes_thresholds(&StockItemSettings { profit_threshold: 9, ..stock_settings() }, &item));
    assert!(!passes_thresholds(&StockItemSettings { profit_threshold: 10, ..stock_settings() }, &item));
    assert!(passes_thresholds(&StockItemSettings { avg_price_cap: 20, ..stock_settings() }, &item));
    assert!(!passes_thresholds(&StockItemSettings { avg_price_cap: 19, ..stock_settings() }, &item));
    assert!(passes_thresholds(&StockItemSettings { price_shift_threshold: 3, ..stock_settings() }, &item));
    assert!(!passes_thresholds(&StockItemSettings { price_shift_threshold: 4, ..stock_settings() }, &item));
    assert!(passes_thresholds(&StockItemSettings { trading_tax_cap: 2001, ..stock_settings() }, &item));
    assert!(!passes_thresholds(&StockItemSettings { trading_tax_cap: 2000, ..stock_settings() }, &item));
    assert!(passes_thresholds(&StockItemSettings { min_wtb_profit_margin: 25, ..stock_settings() }, &item));
    assert!(!passes_thresholds(&StockItemSettings { min_wtb_profit_margin: 26, ..stock_settings() }, &item));
    let odd = ItemPriceInfo { avg_price: Plat(f64::NAN), ..sample_price(0, 10.0, 20.0) };
    assert!(!passes_thresholds(&StockItemSettings { avg_price_cap: 20, ..stock_settings() }, &odd));
    assert!(passes_thresholds(&stock_settings(), &odd));
}

#[test]
fn key_names_settings_and_mode() {
    assert_eq!(interesting_items_key("a:1", true), "a:1;low_rank_mods_rankless_mode:true");
    assert_eq!(interesting_items_key("", false), ";low_rank_mods_rankless_mode:false");
}

#[test]
fn groups_have_one_price_each() {
    let mut other = sample_price(0, 5.0, 9.0);
    other.wfm_id = "7".to_string();
    let prices = vec![
        sample_price(0, 10.0, 20.0),
        other.clone(),
        sample_price(3, 30.0, 40.0),
        other.clone(),
    ];
    let ids = vec!["123".to_string(), "unknown".to_string()];
    let grouped = aggregate_groups(prices.clone(), &ids);
    assert_eq!(grouped.len(), 3);
    assert_eq!(prices_of_item(&grouped, &"7".to_string()), vec![other.clone(), other]);
    let whole = prices_of_item(&grouped, &"123".to_string());
    assert_eq!(whole.len(), 1);
    assert_eq!(whole[0].avg_price, Plat(35.0));
    assert!(prices_of_item(&grouped, &"unknown".to_string()).is_empty());
    assert_eq!(aggregate_groups(prices.clone(), &vec![]), prices);
}

#[test]
fn interesting_items_pass_the_thresholds() {
    let prices = vec![sample_price(0, 10.0, 20.0), sample_price(3, 30.0, 40.0)];
    let catalogue = vec![sample_item(&["mod"], Some(5))];
    let cap = StockItemSettings { avg_price_cap: 30, ..stock_settings() };
    let each = get_interesting_items(&cap, false, None, &catalogue, prices.clone());
    assert_eq!(each, vec![sample_price(0, 10.0, 20.0)]);
    let whole = get_interesting_items(&cap, true, None, &catalogue, prices.clone());
    assert!(whole.is_empty());
    let higher = StockItemSettings { avg_price_cap: 35, ..stock_settings() };
    let whole = get_interesting_items(&higher, true, None, &catalogue, prices.clone());
    assert_eq!(whole.len(), 1);
    assert_eq!(whole[0].uuid, "test_mod-R 0");
    let known = vec![sample_price(3, 30.0, 40.0)];
    assert_eq!(get_interesting_items(&cap, true, Some(known.clone()), &catalogue, prices), known);
}

#[test]
fn higher_volume_thresholds_leave_fewer_items() {
    let prices = vec![
        sample_price(0, 10.0, 20.0),
        sample_price(1, 10.5, 20.0),
        sample_price(2, 11.0, 20.0),
        sample_price(3, -2.0, 20.0),
    ];
    let count = |volume_threshold: i64| {
        let settings = StockItemSettings { volume_threshold, ..stock_settings() };
        get_interesting_items(&settings, false, None, &[], prices.clone()).len()
    };
    assert_eq!(count(-5), 4);
    assert_eq!(count(-1), 4);
    assert_eq!(count(0), 3);
    assert_eq!(count(10), 2);
    assert_eq!(count(11), 0);
}

#[test]
fn knapsack_of_fractions_of_either_sign() {
    let item = |weight: i64, value: f64, name: &str| {
        (weight, Plat(value), name.to_string(), String::new())
    };
    let items = vec![item(1, -0.5, "loss"), item(1, 0.25, "gain"), item(2, 0.5, "more")];
    let (selected, unselected) = knapsack(items, 4);
    let names: Vec<&str> = selected.iter().map(|i| i.2.as_str()).collect();
    assert_eq!(names, vec!["gain", "more"]);
    assert_eq!(unselected[0].2, "loss");
}

#[test]
fn knapsack_of_fractions() {
    let item = |weight: i64, value: f64, name: &str| {
        (weight, Plat(value), name.to_string(), format!("{}-uuid", name))
    };
    let items = vec![item(3, 2.5, "a"), item(2, 1.5, "b"), item(2, 1.25, "c"), item(1, f64::NAN, "d")];
    let (selected, unselected) = knapsack(items, 4);
    let names: Vec<&str> = selected.iter().map(|i| i.2.as_str()).collect();
    assert_eq!(names, vec!["b", "c"]);
    let names: Vec<&str> = unselected.iter().map(|i| i.2.as_str()).collect();
    assert_eq!(names, vec!["a", "d"]);
    assert_eq!(selected[0].3, "b-uuid");
}
