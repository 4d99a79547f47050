//! Sell planning: one-stop and best-value plans, hot cargo routing,
//! and the distance overlay.

use cargo_value_scanner::entities::{CargoItem, NqaSet, PriceBook, PricePoint};
use cargo_value_scanner::planner::{
    add_distances_to_plan, calculate_best_value_plan, calculate_one_stop_plan, DistanceMap,
    sort_by_nearest_neighbor,
};

fn point(id: i32, name: &str, sell_milli: u64) -> PricePoint {
    PricePoint {
        terminal_id: Some(id),
        terminal_name: String::from(name),
        system: Some(String::from("Stanton")),
        terminal_code: None,
        price_sell_min: None,
        price_sell: Some(sell_milli),
        price_sell_max: None,
        price_buy_max: None,
        price_buy: None,
        price_buy_min: None,
        price_average: None,
        container_sizes: Vec::new(),
        scu_buy: None,
        scu_sell_stock: Some(1_000),
        status_sell: None,
        status_buy: None,
        buy_user_rows: None,
        sell_user_rows: None,
        volatility_sell: None,
        is_planetary: false,
        updated_at: 0,
    }
}

fn item(id: &str, commodity: &str, scu: u32, hot: bool) -> CargoItem {
    CargoItem {
        id: String::from(id),
        commodity_id: String::from(commodity),
        commodity_name: String::from(commodity),
        scu,
        is_hot: hot,
    }
}

#[test]
fn hot_cargo_only_sells_at_nqa_terminals() {
    // A hot item with an NQA terminal at 40 and a far better non-NQA
    // terminal at 200: the plan must use the NQA terminal only.
    let mut book = PriceBook::new();
    book.push_prices(
        String::from("drugs"),
        vec![point(1, "GrimHEX Trade", 40_000), point(2, "Area18 TDD", 200_000)],
    );
    let mut nqa = NqaSet::new();
    nqa.insert(1);
    let items = vec![item("i1", "drugs", 10, true)];
    let plan = calculate_one_stop_plan(&items, &book, &nqa);
    assert_eq!(plan.stops.len(), 1);
    assert_eq!(plan.stops[0].terminal_id, Some(1));
    assert_eq!(plan.total_value, 400_000u128);
    assert!(plan.stops[0].is_nqa);
}

#[test]
fn one_stop_takes_the_richest_terminal() {
    // Two items; terminal 2 takes both for more total value than
    // terminal 1 takes either.
    let mut book = PriceBook::new();
    book.push_prices(
        String::from("gold"),
        vec![point(1, "Terminal A", 50_000), point(2, "Terminal B", 45_000)],
    );
    book.push_prices(String::from("quartz"), vec![point(2, "Terminal B", 10_000)]);
    let items = vec![item("i1", "gold", 10, false), item("i2", "quartz", 100, false)];
    let plan = calculate_one_stop_plan(&items, &book, &NqaSet::new());
    assert_eq!(plan.stops.len(), 1);
    // Terminal B: 45 x 10 + 10 x 100 = 1450; terminal A: only 500.
    assert_eq!(plan.stops[0].terminal_id, Some(2));
    assert_eq!(plan.total_value, 1_450_000u128);
    assert_eq!(plan.stops[0].items.len(), 2);
    assert_eq!(plan.total_distance, None);
}

#[test]
fn empty_data_gives_an_empty_plan() {
    let plan = calculate_one_stop_plan(&Vec::new(), &PriceBook::new(), &NqaSet::new());
    assert_eq!(plan.stops.len(), 0);
    assert_eq!(plan.total_value, 0);
}

#[test]
fn best_value_routes_each_item_to_its_best_terminal() {
    let mut book = PriceBook::new();
    book.push_prices(
        String::from("gold"),
        vec![point(1, "Terminal A", 50_000), point(2, "Terminal B", 45_000)],
    );
    book.push_prices(String::from("quartz"), vec![point(2, "Terminal B", 10_000)]);
    let items = vec![item("i1", "gold", 10, false), item("i2", "quartz", 100, false)];
    let plan = calculate_best_value_plan(&items, &book, &NqaSet::new());
    // Gold goes to A (500), quartz to B (1000); total 1500.
    assert_eq!(plan.total_value, 1_500_000u128);
    assert_eq!(plan.stops.len(), 2);
    // Stops ranked by value descending: B (1000) first.
    assert_eq!(plan.stops[0].terminal_id, Some(2));
    assert_eq!(plan.stops[0].stop_value, 1_000_000u128);
    assert_eq!(plan.stops[1].terminal_id, Some(1));
}

#[test]
fn best_value_groups_items_sold_at_one_terminal() {
    let mut book = PriceBook::new();
    book.push_prices(String::from("gold"), vec![point(2, "Terminal B", 50_000)]);
    book.push_prices(String::from("quartz"), vec![point(2, "Terminal B", 10_000)]);
    let items = vec![item("i1", "gold", 10, false), item("i2", "quartz", 100, false)];
    let plan = calculate_best_value_plan(&items, &book, &NqaSet::new());
    assert_eq!(plan.stops.len(), 1);
    assert_eq!(plan.stops[0].items.len(), 2);
    assert_eq!(plan.total_value, 1_500_000u128);
}

#[test]
fn nearest_neighbor_visits_known_distances_first() {
    let mut book = PriceBook::new();
    book.push_prices(String::from("gold"), vec![point(1, "Far", 50_000)]);
    book.push_prices(String::from("quartz"), vec![point(2, "Near", 10_000)]);
    book.push_prices(String::from("iron"), vec![point(3, "Unknown", 5_000)]);
    let items = vec![
        item("i1", "gold", 10, false),
        item("i2", "quartz", 10, false),
        item("i3", "iron", 10, false),
    ];
    let plan = calculate_best_value_plan(&items, &book, &NqaSet::new());
    assert_eq!(plan.stops.len(), 3);
    let mut dm = DistanceMap::new();
    dm.push_distance(1, 9_000);
    dm.push_distance(2, 4_000);
    let routed = sort_by_nearest_neighbor(plan, 99, &dm);
    assert_eq!(routed.stops[0].terminal_id, Some(2));
    assert_eq!(routed.stops[0].distance_from_prev, Some(4_000));
    assert_eq!(routed.stops[1].terminal_id, Some(1));
    assert_eq!(routed.stops[1].distance_from_prev, Some(9_000));
    // The stop without a known distance is visited last.
    assert_eq!(routed.stops[2].terminal_id, Some(3));
    assert_eq!(routed.stops[2].distance_from_prev, None);
    assert_eq!(routed.total_distance, Some(13_000));
}

#[test]
fn distance_overlay_keeps_the_stop_order() {
    let mut book = PriceBook::new();
    book.push_prices(String::from("gold"), vec![point(1, "Only", 50_000)]);
    let items = vec![item("i1", "gold", 10, false)];
    let plan = calculate_one_stop_plan(&items, &book, &NqaSet::new());
    let mut dm = DistanceMap::new();
    dm.push_distance(1, 7_500);
    let with_dist = add_distances_to_plan(plan, 99, &dm);
    assert_eq!(with_dist.stops.len(), 1);
    assert_eq!(with_dist.stops[0].distance_from_prev, Some(7_500));
    assert_eq!(with_dist.total_distance, Some(7_500));
}

#[test]
fn equal_best_prices_go_to_the_later_point() {
    // Two terminals quote the same price; the later point wins the
    // item, as the per-item maximum keeps the last of equals.
    let mut book = PriceBook::new();
    book.push_prices(
        String::from("gold"),
        vec![point(1, "Terminal A", 50_000), point(2, "Terminal B", 50_000)],
    );
    let items = vec![item("i1", "gold", 10, false)];
    let plan = calculate_best_value_plan(&items, &book, &NqaSet::new());
    assert_eq!(plan.stops.len(), 1);
    assert_eq!(plan.stops[0].terminal_id, Some(2));
}

#[test]
fn planner_prefers_max_over_min_sell_price() {
    // The planner chain tries max, last, average, then min, and the
    // chosen value must be positive.
    let mut p = point(1, "Terminal A", 10_000);
    p.price_sell_max = Some(30_000);
    p.price_sell_min = Some(1_000);
    let mut book = PriceBook::new();
    book.push_prices(String::from("gold"), vec![p]);
    let items = vec![item("i1", "gold", 1, false)];
    let plan = calculate_one_stop_plan(&items, &book, &NqaSet::new());
    assert_eq!(plan.total_value, 30_000u128);
}
