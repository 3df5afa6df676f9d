use rebalance::fixed::{format_digits, format_fixed2, parse_money, parse_percent, ParseError};
use rebalance::portfolio::{Portfolio, PortfolioError, EPSILON_MICRO};

#[test]
fn parse_money_scales_to_cents() {
    assert_eq!(parse_money("12.34"), Ok(1234));
    assert_eq!(parse_money("600.40"), Ok(60040));
    assert_eq!(parse_money("0"), Ok(0));
    assert_eq!(parse_money("1.5"), Ok(150));
    assert_eq!(parse_money("7"), Ok(700));
    assert_eq!(parse_money("2.500"), Ok(250));
}

#[test]
fn parse_money_rejects_bad_input() {
    assert_eq!(parse_money("abc"), Err(ParseError::NotANumber));
    assert_eq!(parse_money(""), Err(ParseError::NotANumber));
    assert_eq!(parse_money("-5"), Err(ParseError::OutOfRange));
    assert_eq!(parse_money("1.005"), Err(ParseError::TooPrecise));
    assert_eq!(parse_money("2000000000000.01"), Err(ParseError::OutOfRange));
}

#[test]
fn parse_percent_scales_to_basis_points() {
    assert_eq!(parse_percent("50"), Ok(5000));
    assert_eq!(parse_percent("100"), Ok(10000));
    assert_eq!(parse_percent("33.33"), Ok(3333));
    assert_eq!(parse_percent("0"), Ok(0));
    assert_eq!(parse_percent("100.01"), Err(ParseError::OutOfRange));
    assert_eq!(parse_percent("-1"), Err(ParseError::OutOfRange));
    assert_eq!(parse_percent("12.345"), Err(ParseError::TooPrecise));
    assert_eq!(parse_percent("half"), Err(ParseError::NotANumber));
}

#[test]
fn format_digits_renders_decimal() {
    assert_eq!(format_digits(0), "0");
    assert_eq!(format_digits(7), "7");
    assert_eq!(format_digits(1234567890), "1234567890");
}

#[test]
fn format_fixed2_renders_two_decimals() {
    assert_eq!(format_fixed2(0), "0.00");
    assert_eq!(format_fixed2(5), "0.05");
    assert_eq!(format_fixed2(60040), "600.40");
    assert_eq!(format_fixed2(10000), "100.00");
}

#[test]
fn set_allocation_round_trips_exactly() {
    let mut p = Portfolio::new();
    p.add_asset_class("Stocks".to_string());
    let cents = parse_money("600.40").unwrap();
    assert_eq!(p.set_allocation("Stocks".to_string(), cents), Ok(()));
    let back = p.get_allocation("Stocks");
    assert_eq!(back, 60040);
    assert_eq!(format_fixed2(back as i128), "600.40");
}

#[test]
fn set_target_round_trips_exactly() {
    let mut p = Portfolio::new();
    p.add_asset_class("Bonds".to_string());
    assert_eq!(p.get_target("Bonds"), None);
    assert_eq!(p.set_target("Bonds".to_string(), 3333), Ok(()));
    assert_eq!(p.get_target("Bonds"), Some(3333));
}

#[test]
fn set_on_missing_name_is_not_found() {
    let mut p = Portfolio::new();
    p.add_asset_class("Stocks".to_string());
    assert_eq!(
        p.set_allocation("Bonds".to_string(), 100),
        Err(PortfolioError::NotFound)
    );
    assert_eq!(
        p.set_target("Bonds".to_string(), 100),
        Err(PortfolioError::NotFound)
    );
}

#[test]
fn set_out_of_range_is_rejected() {
    let mut p = Portfolio::new();
    p.add_asset_class("Stocks".to_string());
    assert_eq!(
        p.set_allocation("Stocks".to_string(), -1),
        Err(PortfolioError::OutOfRange)
    );
    assert_eq!(
        p.set_target("Stocks".to_string(), 10001),
        Err(PortfolioError::OutOfRange)
    );
    assert_eq!(p.get_allocation("Stocks"), 0);
    assert_eq!(p.get_target("Stocks"), None);
}

#[test]
fn add_existing_name_resets_record() {
    let mut p = Portfolio::new();
    p.add_asset_class("Stocks".to_string());
    assert_eq!(p.set_allocation("Stocks".to_string(), 12345), Ok(()));
    assert_eq!(p.set_target("Stocks".to_string(), 5000), Ok(()));
    p.add_asset_class("Stocks".to_string());
    assert_eq!(p.num_allocations(), 1);
    assert_eq!(p.get_allocation("Stocks"), 0);
    assert_eq!(p.get_target("Stocks"), None);
}

#[test]
fn total_sums_all_amounts() {
    let mut p = Portfolio::new();
    assert_eq!(p.total(), 0);
    p.add_asset_class("Stocks".to_string());
    p.add_asset_class("Bonds".to_string());
    p.add_asset_class("Cash".to_string());
    assert_eq!(p.set_allocation("Stocks".to_string(), 60000), Ok(()));
    assert_eq!(p.set_allocation("Bonds".to_string(), 40000), Ok(()));
    assert_eq!(p.total(), 100000);
}

#[test]
fn asset_classes_lists_names_in_order() {
    let mut p = Portfolio::new();
    p.add_asset_class("Stocks".to_string());
    p.add_asset_class("Bonds".to_string());
    assert_eq!(p.asset_classes(), vec!["Stocks".to_string(), "Bonds".to_string()]);
}

#[test]
fn complete_needs_every_target() {
    let mut p = Portfolio::new();
    assert!(p.complete());
    p.add_asset_class("Stocks".to_string());
    p.add_asset_class("Bonds".to_string());
    assert!(!p.complete());
    assert_eq!(p.set_target("Stocks".to_string(), 5000), Ok(()));
    assert!(!p.complete());
    assert_eq!(p.set_target("Bonds".to_string(), 5000), Ok(()));
    assert!(p.complete());
}

#[test]
fn rebalance_example_sell_stocks_buy_bonds() {
    let mut p = Portfolio::new();
    p.add_asset_class("Stocks".to_string());
    p.add_asset_class("Bonds".to_string());
    assert_eq!(p.set_allocation("Stocks".to_string(), 60000), Ok(()));
    assert_eq!(p.set_allocation("Bonds".to_string(), 40000), Ok(()));
    assert_eq!(p.set_target("Stocks".to_string(), 5000), Ok(()));
    assert_eq!(p.set_target("Bonds".to_string(), 5000), Ok(()));
    assert_eq!(p.total(), 100000);
    let adjs = p.compute_adjustments();
    assert_eq!(adjs.len(), 2);
    assert_eq!(adjs[0].name, "Stocks");
    assert_eq!(adjs[0].micro, -100_000_000);
    assert_eq!(adjs[1].name, "Bonds");
    assert_eq!(adjs[1].micro, 100_000_000);
}

#[test]
fn single_zero_asset_needs_no_adjustment() {
    let mut p = Portfolio::new();
    p.add_asset_class("Cash".to_string());
    assert_eq!(p.set_target("Cash".to_string(), 10000), Ok(()));
    let adjs = p.compute_adjustments();
    assert_eq!(adjs.len(), 0);
}

#[test]
fn subcent_adjustments_are_suppressed() {
    let mut p = Portfolio::new();
    p.add_asset_class("A".to_string());
    p.add_asset_class("B".to_string());
    assert_eq!(p.set_allocation("A".to_string(), 1), Ok(()));
    assert_eq!(p.set_target("A".to_string(), 5000), Ok(()));
    assert_eq!(p.set_target("B".to_string(), 5000), Ok(()));
    let adjs = p.compute_adjustments();
    assert_eq!(adjs.len(), 0);
}

#[test]
fn one_cent_adjustment_is_reported() {
    let mut p = Portfolio::new();
    p.add_asset_class("A".to_string());
    p.add_asset_class("B".to_string());
    assert_eq!(p.set_allocation("A".to_string(), 2), Ok(()));
    assert_eq!(p.set_target("A".to_string(), 5000), Ok(()));
    assert_eq!(p.set_target("B".to_string(), 5000), Ok(()));
    let adjs = p.compute_adjustments();
    assert_eq!(adjs.len(), 2);
    assert_eq!(adjs[0].name, "A");
    assert_eq!(adjs[0].micro, -10_000);
    assert_eq!(adjs[1].name, "B");
    assert_eq!(adjs[1].micro, 10_000);
    for a in &adjs {
        assert!(a.micro.abs() >= EPSILON_MICRO);
    }
}

#[test]
fn adjustments_balance_when_targets_sum_to_hundred() {
    let mut p = Portfolio::new();
    p.add_asset_class("Stocks".to_string());
    p.add_asset_class("Bonds".to_string());
    p.add_asset_class("Cash".to_string());
    assert_eq!(p.set_allocation("Stocks".to_string(), 10000), Ok(()));
    assert_eq!(p.set_allocation("Bonds".to_string(), 20000), Ok(()));
    assert_eq!(p.set_allocation("Cash".to_string(), 30000), Ok(()));
    assert_eq!(p.set_target("Stocks".to_string(), 3333), Ok(()));
    assert_eq!(p.set_target("Bonds".to_string(), 3333), Ok(()));
    assert_eq!(p.set_target("Cash".to_string(), 3334), Ok(()));
    let adjs = p.compute_adjustments();
    assert_eq!(adjs.len(), 3);
    let sum: i128 = adjs.iter().map(|a| a.micro).sum();
    assert_eq!(sum, 0);
}

#[test]
fn compute_adjustments_is_idempotent() {
    let mut p = Portfolio::new();
    p.add_asset_class("Stocks".to_string());
    p.add_asset_class("Bonds".to_string());
    assert_eq!(p.set_allocation("Stocks".to_string(), 77700), Ok(()));
    assert_eq!(p.set_allocation("Bonds".to_string(), 22300), Ok(()));
    assert_eq!(p.set_target("Stocks".to_string(), 2500), Ok(()));
    assert_eq!(p.set_target("Bonds".to_string(), 7500), Ok(()));
    let first = p.compute_adjustments();
    let second = p.compute_adjustments();
    assert_eq!(first.len(), second.len());
    for (a, b) in first.iter().zip(second.iter()) {
        assert_eq!(a.name, b.name);
        assert_eq!(a.micro, b.micro);
    }
}

#[test]
fn summary_table_is_tab_separated() {
    let mut p = Portfolio::new();
    assert_eq!(p.summary_table(), "Asset Class\tAllocation\tTarget");
    p.add_asset_class("Stocks".to_string());
    p.add_asset_class("Bonds".to_string());
    assert_eq!(p.set_allocation("Stocks".to_string(), 60000), Ok(()));
    assert_eq!(p.set_target("Stocks".to_string(), 5000), Ok(()));
    assert_eq!(
        p.summary_table(),
        "Asset Class\tAllocation\tTarget\nStocks\t600.00\t50.00%\nBonds\t0.00\tUnspecified"
    );
}
