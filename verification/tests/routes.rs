//! Trade route calculation, quantity math, filtering and sorting.

use cargo_value_scanner::entities::{NqaSet, PricePoint};
use cargo_value_scanner::trade_route::{
    calculate_routes_for_commodity, sort_routes, TradeRouteFilter, TradeRouteSort,
};

fn point(id: i32, name: &str) -> PricePoint {
    PricePoint {
        terminal_id: Some(id),
        terminal_name: String::from(name),
        system: Some(String::from("Stanton")),
        terminal_code: None,
        price_sell_min: None,
        price_sell: None,
        price_sell_max: None,
        price_buy_max: None,
        price_buy: None,
        price_buy_min: None,
        price_average: None,
        container_sizes: Vec::new(),
        scu_buy: None,
        scu_sell_stock: None,
        status_sell: None,
        status_buy: None,
        buy_user_rows: None,
        sell_user_rows: None,
        volatility_sell: None,
        is_planetary: false,
        updated_at: 0,
    }
}

fn buy_sell_pair() -> Vec<PricePoint> {
    // Terminal 1 sells to the player at 50 with 100 SCU in stock;
    // terminal 2 buys from the player at 80 and takes 50 SCU.
    let mut a = point(1, "Terminal A");
    a.price_buy = Some(50_000);
    a.scu_buy = Some(100);
    let mut b = point(2, "Terminal B");
    b.price_sell = Some(80_000);
    b.scu_sell_stock = Some(50);
    vec![a, b]
}

#[test]
fn one_profitable_pair_yields_one_route() {
    let prices = buy_sell_pair();
    let routes = calculate_routes_for_commodity(
        &String::from("77"),
        &String::from("Laranite"),
        false,
        &prices,
        &NqaSet::new(),
    );
    assert_eq!(routes.len(), 1);
    let r = &routes[0];
    assert_eq!(r.buy_terminal_id, 1);
    assert_eq!(r.sell_terminal_id, 2);
    assert_eq!(r.profit_per_scu, 30_000);
    assert_eq!(r.roi_percent, 60_000);
}

#[test]
fn quantity_capped_by_demand() {
    let prices = buy_sell_pair();
    let routes = calculate_routes_for_commodity(
        &String::from("77"),
        &String::from("Laranite"),
        false,
        &prices,
        &NqaSet::new(),
    );
    let q = routes[0].for_quantity(200);
    assert_eq!(q.quantity, 50);
    assert_eq!(q.max_tradeable, 50);
    assert_eq!(q.invest, 2_500_000u128);
    assert_eq!(q.profit_total, 1_500_000u128);
}

#[test]
fn every_route_is_strictly_profitable() {
    // Several terminals, some of them unprofitable pairings.
    let mut prices = buy_sell_pair();
    let mut c = point(3, "Terminal C");
    c.price_sell = Some(40_000);
    c.scu_sell_stock = Some(10);
    let mut d = point(4, "Terminal D");
    d.price_buy = Some(70_000);
    d.scu_buy = Some(10);
    prices.push(c);
    prices.push(d);
    let routes = calculate_routes_for_commodity(
        &String::from("77"),
        &String::from("Laranite"),
        false,
        &prices,
        &NqaSet::new(),
    );
    assert!(routes.len() >= 1);
    for r in &routes {
        assert!(r.profit_per_scu > 0);
        assert!(r.roi_percent > 0);
        assert!(r.sell_price > r.buy_price);
    }
}

#[test]
fn same_terminal_never_pairs_with_itself() {
    let mut a = point(1, "Terminal A");
    a.price_buy = Some(50_000);
    a.scu_buy = Some(100);
    a.price_sell = Some(80_000);
    a.scu_sell_stock = Some(50);
    let prices = vec![a];
    let routes = calculate_routes_for_commodity(
        &String::from("77"),
        &String::from("Laranite"),
        false,
        &prices,
        &NqaSet::new(),
    );
    assert_eq!(routes.len(), 0);
}

#[test]
fn nqa_sell_flag_follows_the_terminal_set() {
    let prices = buy_sell_pair();
    let mut nqa = NqaSet::new();
    nqa.insert(2);
    let routes = calculate_routes_for_commodity(
        &String::from("77"),
        &String::from("Laranite"),
        true,
        &prices,
        &nqa,
    );
    assert_eq!(routes.len(), 1);
    assert!(routes[0].sell_is_nqa);
    assert!(routes[0].is_illegal);
}

#[test]
fn route_calculation_is_reproducible() {
    let prices = buy_sell_pair();
    let a = calculate_routes_for_commodity(
        &String::from("77"),
        &String::from("Laranite"),
        false,
        &prices,
        &NqaSet::new(),
    );
    let b = calculate_routes_for_commodity(
        &String::from("77"),
        &String::from("Laranite"),
        false,
        &prices,
        &NqaSet::new(),
    );
    assert_eq!(a.len(), b.len());
    assert_eq!(a[0].profit_per_scu, b[0].profit_per_scu);
    assert_eq!(a[0].roi_percent, b[0].roi_percent);
    assert_eq!(a[0].buy_terminal_name, b[0].buy_terminal_name);
}

fn two_routes() -> Vec<cargo_value_scanner::trade_route::TradeRoute> {
    // Route 1: profit 30/SCU, demand 50.  Route 2: profit 10/SCU but
    // huge demand, and a known distance.
    let mut prices = buy_sell_pair();
    prices[0].scu_buy = Some(100_000);
    let mut c = point(3, "Terminal C");
    c.price_sell = Some(60_000);
    c.scu_sell_stock = Some(100_000);
    prices.push(c);
    let mut routes = calculate_routes_for_commodity(
        &String::from("77"),
        &String::from("Laranite"),
        false,
        &prices,
        &NqaSet::new(),
    );
    assert_eq!(routes.len(), 2);
    routes[1].distance_gm = Some(2_000);
    routes
}

#[test]
fn sort_by_total_profit_descending() {
    let mut routes = two_routes();
    // At 1000 SCU: route 1 moves 50 for 1.5M, route 2 moves 1000 for 10M.
    sort_routes(&mut routes, TradeRouteSort::ProfitTotal, 1000, true);
    assert_eq!(routes[0].sell_terminal_id, 3);
    assert_eq!(routes[1].sell_terminal_id, 2);
}

#[test]
fn sort_by_roi_descending() {
    let mut routes = two_routes();
    sort_routes(&mut routes, TradeRouteSort::RoiPercent, 100, true);
    assert_eq!(routes[0].sell_terminal_id, 2);
}

#[test]
fn missing_distance_sorts_last_ascending() {
    let mut routes = two_routes();
    sort_routes(&mut routes, TradeRouteSort::Distance, 100, false);
    assert_eq!(routes[0].distance_gm, Some(2_000));
    assert_eq!(routes[1].distance_gm, None);
}

#[test]
fn filters_combine_with_and() {
    let routes = two_routes();
    let mut filter = TradeRouteFilter::default();
    assert!(filter.matches(&routes[0], 100));
    filter.min_roi_percent = Some(50_000);
    assert!(filter.matches(&routes[0], 100));
    assert!(!filter.matches(&routes[1], 100));
    filter.only_nqa_sell = true;
    assert!(!filter.matches(&routes[0], 100));
}

#[test]
fn invest_filter_uses_quantity_scaled_figures() {
    let routes = two_routes();
    let mut filter = TradeRouteFilter::default();
    // Route 1 invests 50 x 50 = 2500 aUEC at 1000 requested SCU.
    filter.max_invest = Some(2_500_000);
    assert!(filter.matches(&routes[0], 1000));
    filter.max_invest = Some(2_499_000);
    assert!(!filter.matches(&routes[0], 1000));
}

#[test]
fn sorting_is_stable_for_equal_keys() {
    // Both routes buy at the same terminal for the same price, so the
    // cargo-value key ties; a stable sort keeps the input order.
    let mut routes = two_routes();
    let first = routes[0].sell_terminal_id;
    let second = routes[1].sell_terminal_id;
    sort_routes(&mut routes, TradeRouteSort::CargoValue, 100, false);
    assert_eq!(routes[0].sell_terminal_id, first);
    assert_eq!(routes[1].sell_terminal_id, second);
    sort_routes(&mut routes, TradeRouteSort::CargoValue, 100, true);
    assert_eq!(routes[0].sell_terminal_id, first);
    assert_eq!(routes[1].sell_terminal_id, second);
}

#[test]
fn sort_labels_are_fixed() {
    assert_eq!(TradeRouteSort::ProfitPerGm.label(), "Profit/Gm");
    assert_eq!(TradeRouteSort::RoiPercent.label(), "ROI %");
    assert_eq!(TradeRouteSort::ProfitTotal.label(), "Profit");
    assert_eq!(TradeRouteSort::ActivityScore.label(), "Traffic");
    assert_eq!(TradeRouteSort::Distance.label(), "Distanz");
    assert_eq!(TradeRouteSort::CargoValue.label(), "Warenwert");
}
