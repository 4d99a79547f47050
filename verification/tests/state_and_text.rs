//! Caches, timestamps, fetch records, decimal rendering and terminal
//! metadata.

use cargo_value_scanner::app_state::{CacheResource, CacheTimestamps};
use cargo_value_scanner::caches::{age_string_of, RoutesCache, TerminalCache};
use cargo_value_scanner::entities::{NqaSet, PriceBook, PricePoint, Terminal};
use cargo_value_scanner::text::{i64_to_dec, u128_to_dec, u64_to_dec};
use cargo_value_scanner::timestamps::parse_timestamp_fields;

fn terminal(id: i32, name: &str, nqa: bool) -> Terminal {
    Terminal {
        id,
        name: String::from(name),
        system: Some(String::from("Stanton")),
        city: None,
        station: None,
        outpost: None,
        orbit: None,
        planet: None,
        is_nqa: nqa,
    }
}

#[test]
fn decimal_rendering_is_exact() {
    assert_eq!(u128_to_dec(0), String::from("0"));
    assert_eq!(u128_to_dec(7), String::from("7"));
    assert_eq!(u128_to_dec(1_234_567_890), String::from("1234567890"));
    assert_eq!(u64_to_dec(100), String::from("100"));
    assert_eq!(i64_to_dec(-42), String::from("-42"));
    assert_eq!(i64_to_dec(0), String::from("0"));
}

#[test]
fn ages_render_in_the_largest_fitting_unit() {
    assert_eq!(age_string_of(59), String::from("59s"));
    assert_eq!(age_string_of(60), String::from("1m"));
    assert_eq!(age_string_of(3_599), String::from("59m"));
    assert_eq!(age_string_of(3_600), String::from("1h"));
    assert_eq!(age_string_of(86_399), String::from("23h"));
    assert_eq!(age_string_of(86_400), String::from("1d"));
}

#[test]
fn fetch_records_replace_and_clear() {
    let mut cache = CacheTimestamps::new();
    let prices = CacheResource::Prices(String::from("77"));
    assert_eq!(cache.fetched_at(&prices), None);
    cache.record_fetch(prices.clone(), 100);
    cache.record_fetch(CacheResource::Commodities, 200);
    assert_eq!(cache.fetched_at(&prices), Some(100));
    cache.record_fetch(prices.clone(), 300);
    assert_eq!(cache.fetched_at(&prices), Some(300));
    assert_eq!(cache.iter().len(), 2);
    assert!(cache.is_stale_at(&prices, 10, 400));
    assert!(!cache.is_stale_at(&prices, 100, 400));
    assert!(cache.is_stale_at(&CacheResource::SellLocations, 1000, 400));
    cache.clear();
    assert_eq!(cache.fetched_at(&prices), None);
}

#[test]
fn distinct_price_resources_do_not_collide() {
    let mut cache = CacheTimestamps::new();
    cache.record_fetch(CacheResource::Prices(String::from("77")), 1);
    cache.record_fetch(CacheResource::Prices(String::from("88")), 2);
    assert_eq!(cache.fetched_at(&CacheResource::Prices(String::from("77"))), Some(1));
    assert_eq!(cache.fetched_at(&CacheResource::Prices(String::from("88"))), Some(2));
}

#[test]
fn terminal_cache_collects_nqa_ids() {
    let cache = TerminalCache::new(
        String::from("4.0"),
        vec![terminal(1, "A", true), terminal(2, "B", false), terminal(3, "C", true)],
    );
    let set: NqaSet = cache.nqa_terminal_ids();
    assert_eq!(set.ids, vec![1, 3]);
    assert!(cache.is_nqa(1));
    assert!(!cache.is_nqa(2));
    assert!(!cache.is_nqa(9));
    assert_eq!(cache.game_version, String::from("4.0"));
}

#[test]
fn cache_ages_count_from_the_stamp() {
    let cache = TerminalCache::new(String::from("4.0"), Vec::new());
    assert_eq!(cache.age_at(cache.cached_at + 90), 90);
    assert_eq!(cache.age_at(cache.cached_at), 0);
    let routes = RoutesCache::new(Vec::new());
    assert_eq!(routes.age_at(routes.cached_at + 5), 5);
}

#[test]
fn location_names_resolve_by_priority() {
    let mut t = terminal(1, "Fallback Name", false);
    assert_eq!(t.location_name(), String::from("Stanton"));
    t.planet = Some(String::from("Hurston"));
    assert_eq!(t.location_name(), String::from("Hurston"));
    t.station = Some(String::from("Everus Harbor"));
    assert_eq!(t.location_name(), String::from("Everus Harbor"));
    t.city = Some(String::from("Lorville"));
    assert_eq!(t.location_name(), String::from("Lorville"));
    assert!(t.is_planetary());
    t.city = Some(String::from("Green Imperial Housing Exchange"));
    assert_eq!(t.location_name(), String::from("GrimHEX"));
}

#[test]
fn planetary_means_city_or_outpost() {
    let mut t = terminal(1, "A", false);
    assert!(!t.is_planetary());
    t.outpost = Some(String::from("Shubin Mining SAL-2"));
    assert!(t.is_planetary());
}

#[test]
fn timestamps_prefer_the_epoch_field() {
    assert_eq!(parse_timestamp_fields(Some(1_700_000_000), None), 1_700_000_000);
    assert_eq!(
        parse_timestamp_fields(Some(1_700_000_000), Some(String::from("1970-01-02T00:00:00Z"))),
        1_700_000_000
    );
}

#[test]
fn timestamps_parse_rfc3339_texts() {
    assert_eq!(
        parse_timestamp_fields(None, Some(String::from("1970-01-02T00:00:00Z"))),
        86_400
    );
    assert_eq!(
        parse_timestamp_fields(None, Some(String::from("2021-01-01T00:00:00Z"))),
        1_609_459_200
    );
}

#[test]
fn price_book_returns_the_recorded_points() {
    let mut book = PriceBook::new();
    let p = PricePoint {
        terminal_id: Some(1),
        terminal_name: String::from("T"),
        system: None,
        terminal_code: None,
        price_sell_min: None,
        price_sell: Some(5_000),
        price_sell_max: None,
        price_buy_max: None,
        price_buy: None,
        price_buy_min: None,
        price_average: None,
        container_sizes: vec![1, 2, 4],
        scu_buy: None,
        scu_sell_stock: None,
        status_sell: None,
        status_buy: None,
        buy_user_rows: None,
        sell_user_rows: None,
        volatility_sell: None,
        is_planetary: false,
        updated_at: 0,
    };
    book.push_prices(String::from("77"), vec![p]);
    let got = book.get(&String::from("77")).expect("points");
    assert_eq!(got.len(), 1);
    assert_eq!(got[0].price_sell, Some(5_000));
    assert_eq!(got[0].container_sizes, vec![1, 2, 4]);
    assert!(book.get(&String::from("88")).is_none());
}
