//! Styling helpers and default values.

use cargo_value_scanner::planner::PlannerMode;
use cargo_value_scanner::evaluation::ProfitabilityParams;
use cargo_value_scanner::theme;
use cargo_value_scanner::theme::Profile;
use cargo_value_scanner::trade_route::{TradeRouteFilter, TradeRouteSort};

#[test]
fn defaults_are_the_documented_ones() {
    let params = ProfitabilityParams::default();
    assert_eq!(params.risk_pct, 200_000);
    assert_eq!(params.crew_hourly, 150_000);
    assert_eq!(params.crew_size, 1);
    assert_eq!(params.time_minutes, 60);
    assert_eq!(TradeRouteSort::default(), TradeRouteSort::ProfitPerGm);
    assert_eq!(PlannerMode::default(), PlannerMode::OneStop);
    let filter = TradeRouteFilter::default();
    assert!(filter.max_invest.is_none());
    assert!(!filter.only_illegal);
    assert!(filter.commodity_id.is_none());
}

#[test]
fn theme_classes_differ_per_profile() {
    assert_ne!(theme::btn_primary(Profile::Pirate), theme::btn_primary(Profile::Trader));
    assert_ne!(theme::btn_active(Profile::Miner), theme::btn_inactive(Profile::Miner));
    assert!(theme::panel_border(Profile::Plain).contains("border"));
    assert!(theme::table_header(Profile::Trader).contains("uppercase"));
    assert!(theme::text_primary(Profile::Pirate).contains("text-"));
    assert!(theme::link_class(Profile::Plain).contains("hover:"));
    assert!(theme::input_class(Profile::Miner).contains("focus:"));
    assert!(theme::label_class(Profile::Plain).contains("uppercase"));
    assert!(theme::accent_text(Profile::Trader).contains("text-"));
    assert!(theme::text_secondary(Profile::Plain).contains("text-"));
    assert!(theme::text_muted(Profile::Plain).contains("text-"));
    assert!(theme::btn_small_active(Profile::Plain).contains("rounded"));
    assert!(theme::btn_small_inactive(Profile::Plain).contains("rounded"));
    assert!(theme::input_small(Profile::Plain).contains("rounded"));
    assert!(theme::panel_solid(Profile::Plain).contains("rounded"));
    assert!(theme::table_container(Profile::Plain).contains("overflow"));
    assert!(theme::table_divider(Profile::Plain).contains("divide"));
}
