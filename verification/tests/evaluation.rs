//! Cargo evaluation: price summaries, item values and the
//! profitability indicator.

use cargo_value_scanner::entities::{CargoItem, PriceBook, PricePoint};
use cargo_value_scanner::evaluation::{
    compute_confidence_at, evaluate_cargo_items_at, evaluate_item_at, price_summary_at,
    profitability_indicator, ProfitabilityParams, ProfitIndicatorStatus,
};

fn point() -> PricePoint {
    PricePoint {
        terminal_id: Some(1),
        terminal_name: String::from("Port Olisar"),
        system: Some(String::from("Stanton")),
        terminal_code: None,
        price_sell_min: None,
        price_sell: None,
        price_sell_max: None,
        price_buy_max: None,
        price_buy: None,
        price_buy_min: None,
        price_average: None,
        container_sizes: Vec::new(),
        scu_buy: None,
        scu_sell_stock: None,
        status_sell: None,
        status_buy: None,
        buy_user_rows: None,
        sell_user_rows: None,
        volatility_sell: None,
        is_planetary: false,
        updated_at: 1_000_000,
    }
}

fn item(scu: u32) -> CargoItem {
    CargoItem {
        id: String::from("item-1"),
        commodity_id: String::from("77"),
        commodity_name: String::from("Laranite"),
        scu,
        is_hot: false,
    }
}

#[test]
fn one_point_values_quantity_times_max_price() {
    // One cargo item of 50 SCU against one point selling at 100 aUEC
    // (max) with a last price of 90: the value is 50 x 100.
    let mut p = point();
    p.price_sell_max = Some(100_000);
    p.price_sell = Some(90_000);
    let points = vec![p];
    let ev = evaluate_item_at(&item(50), Some(&points), 1_000_000);
    assert_eq!(ev.ev, 5_000_000u128);
    assert_eq!(ev.max, Some(5_000_000u128));
    assert_eq!(ev.min, None);
}

#[test]
fn no_points_yields_all_zero() {
    let ev = evaluate_item_at(&item(50), None, 1_000_000);
    assert_eq!(ev.ev, 0);
    assert_eq!(ev.min, None);
    assert_eq!(ev.max, None);
    assert_eq!(ev.confidence, 0);

    let empty: Vec<PricePoint> = Vec::new();
    let ev2 = evaluate_item_at(&item(50), Some(&empty), 1_000_000);
    assert_eq!(ev2.ev, 0);
    assert_eq!(ev2.confidence, 0);
}

#[test]
fn summary_averages_and_extremes() {
    // Two usable sell prices 100 and 50: mean 75, max 100; one buy
    // price: min of the buy side.
    let mut a = point();
    a.price_sell_max = Some(100_000);
    let mut b = point();
    b.price_sell = Some(50_000);
    b.price_buy_min = Some(20_000);
    let points = vec![a, b];
    let s = price_summary_at(&points, 1_000_000).expect("summary");
    assert_eq!(s.average_price, 75_000);
    assert_eq!(s.max_price, Some(100_000));
    assert_eq!(s.min_price, Some(20_000));
}

#[test]
fn summary_none_without_usable_sell_price() {
    let mut a = point();
    a.price_buy = Some(10_000);
    let points = vec![a];
    assert!(price_summary_at(&points, 1_000_000).is_none());
}

#[test]
fn fresh_full_stock_quiet_market_confidence() {
    // Read at the observation time, stock at the 5000 SCU ceiling and
    // zero volatility: 0.5 * 1.0 + 0.25 * 1.0 + 0.25 * 1.0 = 1.0.
    let mut p = point();
    p.price_sell = Some(10_000);
    p.scu_sell_stock = Some(5_000);
    p.volatility_sell = Some(0);
    let points = vec![p];
    assert_eq!(compute_confidence_at(&points, 1_000_000), 1_000_000);
}

#[test]
fn default_volatility_factor_without_observations() {
    // Fresh, no stock, no volatility data: 0.5 + 0 + 0.25 * 0.7.
    let mut p = point();
    p.price_sell = Some(10_000);
    let points = vec![p];
    assert_eq!(compute_confidence_at(&points, 1_000_000), 675_000);
}

#[test]
fn confidence_stays_within_bounds() {
    // An hour old, volatile and understocked: still within [0, 1].
    let mut p = point();
    p.price_sell = Some(10_000);
    p.volatility_sell = Some(2_000_000);
    p.scu_sell_stock = Some(100);
    let points = vec![p];
    let c = compute_confidence_at(&points, 1_003_600);
    assert!(c <= 1_000_000);
}

#[test]
fn confidence_decays_with_age_exactly() {
    // One hour old: freshness 3600/7200 = 0.5; no stock data; the
    // default volatility factor 0.7; weighted (2*0.5 + 0 + 0.7)/4.
    let mut p = point();
    p.price_sell = Some(10_000);
    let points = vec![p];
    assert_eq!(compute_confidence_at(&points, 1_003_600), 425_000);
}

#[test]
fn totals_accumulate_over_items() {
    let mut p = point();
    p.price_sell_max = Some(100_000);
    let mut book = PriceBook::new();
    book.push_prices(String::from("77"), vec![p]);
    let items = vec![item(50), item(20)];
    let summary = evaluate_cargo_items_at(&items, &book, 1_000_000);
    assert_eq!(summary.total_ev, 7_000_000u128);
    assert_eq!(summary.items.len(), 2);
    assert_eq!(summary.items[0].0, String::from("item-1"));
}

#[test]
fn evaluation_is_reproducible_at_a_fixed_clock() {
    let mut p = point();
    p.price_sell_max = Some(100_000);
    p.volatility_sell = Some(300_000);
    p.scu_sell_stock = Some(800);
    let mut book = PriceBook::new();
    book.push_prices(String::from("77"), vec![p]);
    let items = vec![item(50)];
    let a = evaluate_cargo_items_at(&items, &book, 1_003_600);
    let b = evaluate_cargo_items_at(&items, &book, 1_003_600);
    assert_eq!(a.total_ev, b.total_ev);
    assert_eq!(a.average_confidence, b.average_confidence);
    assert_eq!(a.items.len(), b.items.len());
    assert_eq!(a.items[0].1.ev, b.items[0].1.ev);
    assert_eq!(a.items[0].1.confidence, b.items[0].1.confidence);
}

#[test]
fn indicator_green_scenario() {
    // 1000 aUEC at 20% risk, one crew member at 150 aUEC for an hour:
    // crew 150, risk 200, score 650 >= 600, so Green.
    let params = ProfitabilityParams {
        risk_pct: 200_000,
        crew_hourly: 150_000,
        crew_size: 1,
        time_minutes: 60,
    };
    let r = profitability_indicator(1_000_000, &params);
    assert_eq!(r.status, ProfitIndicatorStatus::Green);
    assert_eq!(r.score, 650_000i128);
    assert_eq!(r.rationale, String::from("Net = 1000 - risk 200 - crew 150"));
}

#[test]
fn indicator_yellow_and_red_thresholds() {
    // Heavier crew cost pushes the score below 60% but not below 25%.
    let yellow = ProfitabilityParams {
        risk_pct: 200_000,
        crew_hourly: 500_000,
        crew_size: 1,
        time_minutes: 60,
    };
    let r = profitability_indicator(1_000_000, &yellow);
    assert_eq!(r.status, ProfitIndicatorStatus::Yellow);

    let red = ProfitabilityParams {
        risk_pct: 200_000,
        crew_hourly: 600_000,
        crew_size: 2,
        time_minutes: 60,
    };
    let r = profitability_indicator(1_000_000, &red);
    assert_eq!(r.status, ProfitIndicatorStatus::Red);
}

#[test]
fn indicator_without_value_is_red() {
    let r = profitability_indicator(0, &ProfitabilityParams::default());
    assert_eq!(r.status, ProfitIndicatorStatus::Red);
    assert_eq!(r.rationale, String::from("No estimated value yet"));
}
