use twob_market_making::{
    base_flow_for_price, blend_price, calculate_optimal_quote, compute_target_flows,
    liquidity_position_price, market_price_excluding_position, needs_rebalance,
    quote_flow_for_price, should_update_quote, Bookkeeping, LiquidityPosition,
    LiquidityPositionBalances, Market, MarketState, OptimalQuote, PriceData, PRICE_SCALE,
};

fn price_units(display: f64) -> u64 {
    (display * PRICE_SCALE as f64).round() as u64
}

fn sample_balances(base_balance: u64, quote_balance: u64) -> LiquidityPositionBalances {
    LiquidityPositionBalances {
        base_balance,
        quote_balance,
        base_debt: 0,
        quote_debt: 0,
    }
}

fn idle_position(base_flow: u64, quote_flow: u64) -> LiquidityPosition {
    LiquidityPosition {
        base_balance: 0,
        quote_balance: 0,
        base_debt: 0,
        quote_debt: 0,
        base_flow_u64: base_flow,
        quote_flow_u64: quote_flow,
        last_update_slot: 0,
        slots_without_trade_snapshot: 0,
        base_per_quote_snapshot: 0,
        quote_per_base_snapshot: 0,
    }
}

#[test]
fn weighted_quote_price_is_oracle_dominant_with_small_weight() {
    let oracle = price_units(100.0);
    let lp = price_units(80.0);
    let weight = price_units(0.1);

    let blended = blend_price(oracle, lp, weight).unwrap() as f64 / PRICE_SCALE as f64;
    assert!((blended - 98.1818181818).abs() < 1e-9);
}

#[test]
fn quote_flow_conversion_respects_decimals() {
    // 1 SOL flow (1e9 lamports) at 84 USDC/SOL should be 84e6 micro-USDC flow.
    let quote_flow = quote_flow_for_price(1_000_000_000, price_units(84.0), 9, 6).unwrap();
    assert_eq!(quote_flow, 84_000_000);
}

#[test]
fn base_flow_conversion_respects_decimals() {
    // 100 USDC flow at 101 USDC/SOL should be ~0.990099009 SOL flow.
    let base_flow = base_flow_for_price(100_000_000, price_units(101.0), 9, 6).unwrap();
    assert_eq!(base_flow, 990_099_009);
}

#[test]
fn liquidity_position_price_uses_ui_units() {
    let balances = sample_balances(2_000_000_000, 168_000_000);
    let lp_price = liquidity_position_price(&balances, 9, 6).unwrap();
    assert!((lp_price as f64 / PRICE_SCALE as f64 - 84.0).abs() < 1e-9);
}

#[test]
fn target_above_inventory_anchors_quote_flow() {
    let balances = sample_balances(1_000_000_000, 100_000_000);
    let optimal =
        compute_target_flows(&balances, price_units(101.0), price_units(100.0), 9, 6).unwrap();
    assert_eq!(optimal.quote_flow, 100_000_000);
    assert_eq!(optimal.base_flow, 990_099_009);
}

#[test]
fn target_below_inventory_anchors_base_flow() {
    let balances = sample_balances(1_000_000_000, 100_000_000);
    let optimal =
        compute_target_flows(&balances, price_units(99.0), price_units(100.0), 9, 6).unwrap();
    assert_eq!(optimal.base_flow, 1_000_000_000);
    assert_eq!(optimal.quote_flow, 99_000_000);
}

#[test]
fn returns_false_when_within_threshold() {
    // 1.0 SOL (9 decimals), 84.5 USDC (6 decimals) => 84.5 USDC/SOL
    let balances = sample_balances(1_000_000_000, 84_500_000);
    let price = PriceData { price: price_units(84.0), timestamp: 0 };
    assert!(!needs_rebalance(&price, &balances, 9, 6, 100));
}

#[test]
fn returns_true_when_deviation_exceeds_threshold() {
    // 1.0 SOL, 100 USDC => 100 USDC/SOL
    let balances = sample_balances(1_000_000_000, 100_000_000);
    let price = PriceData { price: price_units(84.0), timestamp: 0 };
    assert!(needs_rebalance(&price, &balances, 9, 6, 100));
}

#[test]
fn returns_true_when_any_side_is_zero() {
    let balances = sample_balances(1_000_000_000, 0);
    let price = PriceData { price: price_units(84.0), timestamp: 0 };
    assert!(needs_rebalance(&price, &balances, 9, 6, 100));
}

#[test]
fn rebalance_never_needed_at_zero_oracle_price() {
    let balances = sample_balances(1_000_000_000, 0);
    let price = PriceData { price: 0, timestamp: 0 };
    assert!(!needs_rebalance(&price, &balances, 9, 6, 100));
}

#[test]
fn rebalance_deviation_exactly_at_threshold_is_not_exceeded() {
    // 84.84 against 84.0 is exactly 100 bps.
    let balances = sample_balances(1_000_000_000, 84_840_000);
    let price = PriceData { price: price_units(84.0), timestamp: 0 };
    assert!(!needs_rebalance(&price, &balances, 9, 6, 100));
    assert!(needs_rebalance(&price, &balances, 9, 6, 99));
}

#[test]
fn optimal_quote_with_zero_weight_follows_oracle_on_base_side() {
    // Oracle 84, inventory 100 USDC per 1 SOL, weight 0: base side binds.
    let balances = sample_balances(1_000_000_000, 100_000_000);
    let price = PriceData { price: price_units(84.0), timestamp: 0 };
    let position = idle_position(5, 7);
    let quote = calculate_optimal_quote(&price, &position, &balances, 9, 6, 0);
    assert_eq!(quote, OptimalQuote { base_flow: 1_000_000_000, quote_flow: 84_000_000 });
}

#[test]
fn optimal_quote_keeps_current_flows_without_inventory_price() {
    let balances = sample_balances(0, 100_000_000);
    let price = PriceData { price: price_units(84.0), timestamp: 0 };
    let quote = calculate_optimal_quote(&price, &idle_position(0, 9), &balances, 9, 6, 0);
    assert_eq!(quote, OptimalQuote { base_flow: 1, quote_flow: 9 });
    let zero_price = PriceData { price: 0, timestamp: 0 };
    let balances = sample_balances(1_000_000_000, 100_000_000);
    let quote = calculate_optimal_quote(&zero_price, &idle_position(4, 0), &balances, 9, 6, 0);
    assert_eq!(quote, OptimalQuote { base_flow: 4, quote_flow: 1 });
}

#[test]
fn conversions_reject_zero_inputs_and_oversized_scales() {
    assert_eq!(quote_flow_for_price(0, price_units(84.0), 9, 6), None);
    assert_eq!(base_flow_for_price(100, 0, 9, 6), None);
    assert_eq!(quote_flow_for_price(1, price_units(84.0), 9, 200), None);
    assert_eq!(liquidity_position_price(&sample_balances(1, 0), 9, 6), None);
}

#[test]
fn solved_flow_is_clamped_to_the_balance() {
    // A target far above the inventory price would ask for more base than held.
    let balances = sample_balances(10, 100_000_000);
    let optimal = compute_target_flows(&balances, price_units(101.0), price_units(100.0), 9, 6).unwrap();
    assert_eq!(optimal.base_flow, 10);
    // A tiny solved flow is raised to 1.
    let optimal = compute_target_flows(&sample_balances(1, 1), price_units(0.000001), price_units(1.0), 9, 6).unwrap();
    assert_eq!(optimal.quote_flow, 1);
}

#[test]
fn requote_triggers_above_threshold_only() {
    // Current 1:100, optimal 1:101: 100 bps apart.
    let optimal = OptimalQuote { base_flow: 1, quote_flow: 101 };
    assert!(should_update_quote(1, 100, &optimal, 50));
    assert!(!should_update_quote(1, 100, &optimal, 150));
    assert!(!should_update_quote(1, 100, &optimal, 100));
    assert!(should_update_quote(1, 100, &optimal, 99));
}

#[test]
fn requote_ignores_the_scale_of_current_flows() {
    let optimal = OptimalQuote { base_flow: 1, quote_flow: 101 };
    for k in [1u64, 7, 1_000, 1_000_000_000] {
        assert!(should_update_quote(k, 100 * k, &optimal, 50));
        assert!(!should_update_quote(k, 100 * k, &optimal, 150));
    }
}

#[test]
fn requote_zero_flow_edges() {
    let optimal = OptimalQuote { base_flow: 3, quote_flow: 4 };
    assert!(should_update_quote(0, 10, &optimal, 10_000));
    let degenerate = OptimalQuote { base_flow: 0, quote_flow: 4 };
    assert!(!should_update_quote(0, 10, &degenerate, 0));
    assert!(!should_update_quote(5, 10, &degenerate, 0));
}

#[test]
fn requote_handles_the_largest_flows() {
    let optimal = OptimalQuote { base_flow: u64::MAX, quote_flow: 1 };
    assert!(should_update_quote(1, u64::MAX, &optimal, u64::MAX - 1));
    let same = OptimalQuote { base_flow: u64::MAX, quote_flow: u64::MAX };
    assert!(!should_update_quote(u64::MAX, u64::MAX, &same, 0));
}

#[test]
fn market_price_leaves_out_the_own_flows() {
    let market = Market { id: 1, base_flow: 1_000_000_001_000, quote_flow: 84_000_002_000, end_slot_interval: 10 };
    let bookkeeping = Bookkeeping { base_per_quote: 0, quote_per_base: 0, last_update_slot: 0, slots_without_trade: 0 };
    let state = MarketState { market, bookkeeping, current_slot: 0 };
    let price = market_price_excluding_position(&idle_position(1, 2), &state, 1_000, 9, 6).unwrap();
    assert_eq!(price, price_units(84.0));
    assert_eq!(market_price_excluding_position(&idle_position(1_000_000_001, 2), &state, 1_000, 9, 6), None);
}
