//! Best-price ranking: penalties, notes, top-three truncation and the
//! overall best entry.

use cargo_value_scanner::entities::{CargoItem, LocationBook, PriceBook, PricePoint, SellLocation};
use cargo_value_scanner::ranking::{
    build_notes, is_hotspot, rank_best_prices, status_label, ARMISTICE_PENALTY,
    CROSS_SYSTEM_PENALTY, HOTSPOT_PENALTY,
};

fn point(id: i32, name: &str, sell_milli: u64) -> PricePoint {
    PricePoint {
        terminal_id: Some(id),
        terminal_name: String::from(name),
        system: Some(String::from("Stanton")),
        terminal_code: None,
        price_sell_min: None,
        price_sell: None,
        price_sell_max: Some(sell_milli),
        price_buy_max: None,
        price_buy: None,
        price_buy_min: None,
        price_average: None,
        container_sizes: Vec::new(),
        scu_buy: None,
        scu_sell_stock: None,
        status_sell: None,
        status_buy: None,
        buy_user_rows: None,
        sell_user_rows: None,
        volatility_sell: None,
        is_planetary: false,
        updated_at: 0,
    }
}

fn item() -> CargoItem {
    CargoItem {
        id: String::from("item-1"),
        commodity_id: String::from("77"),
        commodity_name: String::from("Laranite"),
        scu: 10,
        is_hot: false,
    }
}

#[test]
fn keeps_at_most_three_entries_sorted_descending() {
    let mut book = PriceBook::new();
    book.push_prices(
        String::from("77"),
        vec![
            point(1, "T1", 10_000),
            point(2, "T2", 50_000),
            point(3, "T3", 30_000),
            point(4, "T4", 40_000),
            point(5, "T5", 20_000),
        ],
    );
    let items = vec![item()];
    let summary = rank_best_prices(&items, &book, &LocationBook::new());
    assert_eq!(summary.suggestions.len(), 1);
    let entries = &summary.suggestions[0].entries;
    assert_eq!(entries.len(), 3);
    assert!(entries[0].adjusted_price >= entries[1].adjusted_price);
    assert!(entries[1].adjusted_price >= entries[2].adjusted_price);
    // Home-system terminals carry no penalty: the top three survive.
    assert_eq!(entries[0].adjusted_price, 50_000);
    assert_eq!(entries[1].adjusted_price, 40_000);
    assert_eq!(entries[2].adjusted_price, 30_000);
}

#[test]
fn cross_system_and_armistice_penalties_apply() {
    let mut away = point(1, "Orison Port", 100_000);
    away.system = Some(String::from("Pyro"));
    let mut book = PriceBook::new();
    book.push_prices(String::from("77"), vec![away]);
    let mut locations = LocationBook::new();
    locations.push_location(
        String::from("1"),
        SellLocation {
            id: String::from("loc-1"),
            name: String::from("Orison Port"),
            system: Some(String::from("Pyro")),
            kind: None,
            terminal_code: None,
            armistice: true,
        },
    );
    let items = vec![item()];
    let summary = rank_best_prices(&items, &book, &locations);
    let e = &summary.suggestions[0].entries[0];
    // 100 minus 75 (cross-system) minus 25 (armistice).
    assert_eq!(
        e.adjusted_price,
        100_000 - CROSS_SYSTEM_PENALTY as i64 - ARMISTICE_PENALTY as i64
    );
    let notes = e.notes.as_ref().expect("notes");
    assert_eq!(*notes, String::from("Cross-system, Armistice"));
    assert_eq!(e.location_name, String::from("Orison Port (Pyro)"));
}

#[test]
fn hotspot_terminals_are_penalized_and_may_go_negative() {
    let mut book = PriceBook::new();
    book.push_prices(String::from("77"), vec![point(9, "Grim Hex Exchange", 30_000)]);
    let items = vec![item()];
    let summary = rank_best_prices(&items, &book, &LocationBook::new());
    let e = &summary.suggestions[0].entries[0];
    // 30 minus 40 (hotspot): adjusted prices are never clamped here.
    assert_eq!(e.adjusted_price, 30_000 - HOTSPOT_PENALTY as i64);
    assert_eq!(e.adjusted_price, -10_000);
}

#[test]
fn hotspot_matching_is_substring_based() {
    assert!(is_hotspot(&String::from("Grim Hex Trade Hub")));
    assert!(is_hotspot(&String::from("Jumptown Outpost")));
    assert!(is_hotspot(&String::from("The Spider Nest")));
    assert!(!is_hotspot(&String::from("Port Olisar")));
    assert!(!is_hotspot(&String::from("grim hex")));
}

#[test]
fn best_overall_is_the_highest_per_item_leader() {
    let mut book = PriceBook::new();
    book.push_prices(String::from("77"), vec![point(1, "T1", 50_000)]);
    book.push_prices(String::from("88"), vec![point(2, "T2", 90_000)]);
    let mut gold = item();
    gold.id = String::from("item-2");
    gold.commodity_id = String::from("88");
    let items = vec![item(), gold];
    let summary = rank_best_prices(&items, &book, &LocationBook::new());
    assert_eq!(summary.suggestions.len(), 2);
    let best = summary.best_overall.expect("best entry");
    assert_eq!(best.adjusted_price, 90_000);
}

#[test]
fn items_without_prices_yield_no_suggestion() {
    let book = PriceBook::new();
    let items = vec![item()];
    let summary = rank_best_prices(&items, &book, &LocationBook::new());
    assert_eq!(summary.suggestions.len(), 0);
    assert!(summary.best_overall.is_none());
}

#[test]
fn status_labels_cover_the_four_codes() {
    assert_eq!(status_label(Some(3)), Some("High"));
    assert_eq!(status_label(Some(2)), Some("Normal"));
    assert_eq!(status_label(Some(1)), Some("Low"));
    assert_eq!(status_label(Some(0)), Some("Offline"));
    assert_eq!(status_label(Some(7)), None);
    assert_eq!(status_label(None), None);
}

#[test]
fn notes_join_in_display_order() {
    let notes = build_notes(true, false, true, Some(100), Some(3), Some(0));
    assert_eq!(
        notes,
        Some(String::from("Cross-system, Hotspot, Sell High, Buy Offline, Low stock"))
    );
    assert_eq!(build_notes(false, false, false, Some(1000), None, None), None);
    assert_eq!(
        build_notes(false, false, false, Some(6000), None, None),
        Some(String::from("High stock"))
    );
}
