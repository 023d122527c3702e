use twob_market_making::{
    calculate_update_delay, delay_for_slots, evaluate_position, exit_window_range,
    get_liquidity_position_balances,
    reconstruct_integrals, Bookkeeping, DelayConfig, ExitWindow, LiquidityPosition,
    LiquidityPositionBalances, Market, MarketState, PositionAction, ReconcileError, VenueParams,
};

const PRECISION: u128 = 1_000_000;

fn params() -> VenueParams {
    VenueParams { precision: PRECISION, array_length: 4 }
}

fn market(base_flow: u128, quote_flow: u128) -> Market {
    Market { id: 1, base_flow, quote_flow, end_slot_interval: 10 }
}

fn bookkeeping(last_update_slot: u64) -> Bookkeeping {
    Bookkeeping { base_per_quote: 0, quote_per_base: 0, last_update_slot, slots_without_trade: 0 }
}

fn position(base_balance: u128, base_flow: u64, quote_balance: u128, quote_flow: u64) -> LiquidityPosition {
    LiquidityPosition {
        base_balance,
        quote_balance,
        base_debt: 0,
        quote_debt: 0,
        base_flow_u64: base_flow,
        quote_flow_u64: quote_flow,
        last_update_slot: 100,
        slots_without_trade_snapshot: 0,
        base_per_quote_snapshot: 0,
        quote_per_base_snapshot: 0,
    }
}

fn exits(base: &[u128], quote: &[u128]) -> Option<ExitWindow> {
    Some(ExitWindow { base_exits: base.to_vec(), quote_exits: quote.to_vec() })
}

#[test]
fn outflow_equal_to_balance_settles_at_zero() {
    // Stored base balance 10, flow 2 per unit, 5 units, no inflow.
    let pos = position(10 * PRECISION, 2, 0, 0);
    let b = get_liquidity_position_balances(&pos, &bookkeeping(100), &market(0, 0), &vec![], 105, &params()).unwrap();
    assert_eq!(b, LiquidityPositionBalances { base_balance: 0, quote_balance: 0, base_debt: 0, quote_debt: 0 });
}

#[test]
fn outflow_beyond_balance_becomes_debt() {
    // Same, flow 3 per unit: outflow 15 against a balance of 10.
    let pos = position(10 * PRECISION, 3, 0, 0);
    let b = get_liquidity_position_balances(&pos, &bookkeeping(100), &market(0, 0), &vec![], 105, &params()).unwrap();
    assert_eq!(b.base_balance, 0);
    assert_eq!(b.base_debt, 5);
    assert_eq!(b.base_balance * b.base_debt, 0);
}

#[test]
fn inactive_time_accrues_no_outflow() {
    let mut pos = position(10 * PRECISION, 2, 0, 0);
    pos.slots_without_trade_snapshot = 7;
    let mut bk = bookkeeping(100);
    bk.slots_without_trade = 10;
    // 8 units elapsed, 3 of them inactive: outflow 2 * 5 = 10.
    let b = get_liquidity_position_balances(&pos, &bk, &market(0, 0), &vec![], 108, &params()).unwrap();
    assert_eq!(b.base_balance, 0);
    assert_eq!(b.base_debt, 0);
}

#[test]
fn inflow_follows_the_integrals() {
    // Market flows 50 base / 100 quote; the position quotes 4 base and 2 quote per unit.
    let pos = position(100 * PRECISION, 4, 100 * PRECISION, 2);
    let b = get_liquidity_position_balances(&pos, &bookkeeping(100), &market(50, 100), &vec![None], 105, &params()).unwrap();
    // base: 100 + 0.5 * 5 * 2 - 4 * 5 = 85; quote: 100 + 2 * 5 * 4 - 2 * 5 = 130.
    assert_eq!(b, LiquidityPositionBalances { base_balance: 85, quote_balance: 130, base_debt: 0, quote_debt: 0 });
}

#[test]
fn exits_apply_after_their_step() {
    // Steps every 10 units; window 0 covers slots 0..40. From slot 5 to 25:
    // step at 10 (5 units at 50/100), exit of 25 base there; step at 20
    // (10 units at 25/100); then 5 units at 25/100.
    let w = vec![exits(&[0, 25, 0, 0], &[0, 0, 0, 0])];
    let acc = reconstruct_integrals(&bookkeeping(5), &market(50, 100), &w, 25, &params()).unwrap();
    let p = PRECISION;
    assert_eq!(acc.base_per_quote, p / 2 * 5 + p / 4 * 10 + p / 4 * 5);
    assert_eq!(acc.quote_per_base, 2 * p * 5 + 4 * p * 10 + 4 * p * 5);
    assert_eq!(acc.base_flow, 25);
    assert_eq!(acc.quote_flow, 100);
}

#[test]
fn missing_journal_counts_as_no_exits() {
    let with_zeros = vec![exits(&[0; 4], &[0; 4]), exits(&[0; 4], &[0; 4])];
    let missing = vec![None, None];
    let a = reconstruct_integrals(&bookkeeping(5), &market(30, 70), &with_zeros, 63, &params()).unwrap();
    let b = reconstruct_integrals(&bookkeeping(5), &market(30, 70), &missing, 63, &params()).unwrap();
    assert_eq!(a, b);
    // Closed form: one step over the whole span.
    assert_eq!(a.base_per_quote, PRECISION * 30 / 70 * 58);
    assert_eq!(a.quote_per_base, PRECISION * 70 / 30 * 58);
}

#[test]
fn replaying_twice_gives_the_same_balances() {
    let w = vec![exits(&[0, 5, 0, 0], &[0, 0, 10, 0])];
    let pos = position(1_000 * PRECISION, 1, 1_000 * PRECISION, 1);
    let mut bk = bookkeeping(5);
    bk.base_per_quote = 0;
    let mut p = pos;
    p.last_update_slot = 5;
    let first = get_liquidity_position_balances(&p, &bk, &market(40, 80), &w, 33, &params());
    let second = get_liquidity_position_balances(&p, &bk, &market(40, 80), &w, 33, &params());
    assert_eq!(first, second);
    assert!(first.is_ok());
}

#[test]
fn flowless_market_accrues_nothing() {
    let acc = reconstruct_integrals(&bookkeeping(5), &market(0, 80), &vec![], 95, &params()).unwrap();
    assert_eq!(acc.base_per_quote, 0);
    assert_eq!(acc.quote_per_base, 0);
}

#[test]
fn inconsistent_snapshots_are_rejected() {
    // An exit larger than the running flow.
    let w = vec![exits(&[0, 500, 0, 0], &[0, 0, 0, 0])];
    assert_eq!(reconstruct_integrals(&bookkeeping(5), &market(50, 100), &w, 25, &params()), None);
    // Current time before the position's last settlement.
    let pos = position(0, 1, 0, 1);
    assert_eq!(
        get_liquidity_position_balances(&pos, &bookkeeping(0), &market(0, 0), &vec![], 50, &params()),
        Err(ReconcileError::OutOfRange)
    );
    // A zero window length.
    let mut m = market(1, 1);
    m.end_slot_interval = 0;
    assert_eq!(reconstruct_integrals(&bookkeeping(5), &m, &vec![], 25, &params()), None);
    // Outflow that leaves the fixed-point range.
    let big = VenueParams { precision: u128::MAX / 2, array_length: 4 };
    let pos = position(0, 3, 0, 0);
    assert_eq!(
        get_liquidity_position_balances(&pos, &bookkeeping(100), &market(0, 0), &vec![], 105, &big),
        Err(ReconcileError::OutOfRange)
    );
}

#[test]
fn evaluation_stops_on_debt_and_retargets_otherwise() {
    let state = MarketState { market: market(0, 0), bookkeeping: bookkeeping(100), current_slot: 105 };
    let in_debt = position(10 * PRECISION, 3, 0, 0);
    let e = evaluate_position(&state, &in_debt, &vec![], &params(), 5).unwrap();
    // Window index: 105 / 4 / 10 = 2.
    assert_eq!(e.action, PositionAction::Stop { reference_index: 2 });

    let healthy = position(100 * PRECISION, 1, 55 * PRECISION, 0);
    let e = evaluate_position(&state, &healthy, &vec![], &params(), 5).unwrap();
    assert_eq!(e.balances.base_balance, 95);
    assert_eq!(e.action, PositionAction::UpdateFlows { base_flow: 19, quote_flow: 11, reference_index: 2 });
}

#[test]
fn delay_curve_steps_and_caps() {
    let c = DelayConfig::default();
    assert_eq!(delay_for_slots(0, &c), 100);
    assert_eq!(delay_for_slots(25, &c), 100);
    assert_eq!(delay_for_slots(26, &c), 2_000);
    assert_eq!(delay_for_slots(10_000, &c), 2_000);
    assert_eq!(delay_for_slots(10_001, &c), 2_400);
    assert_eq!(delay_for_slots(10_500, &c), 2_000 + 500 * 400);
    assert_eq!(delay_for_slots(11_000, &c), 2_000 + 1_000 * 400);
    assert_eq!(delay_for_slots(u128::MAX, &c), 2_000 + 1_000 * 400);
    let mut last = 0;
    for s in [0u128, 10, 25, 26, 500, 10_000, 10_001, 10_999, 11_000, 50_000] {
        let d = delay_for_slots(s, &c);
        assert!(d >= last && d >= 100 && d <= 402_000);
        last = d;
    }
}

#[test]
fn update_delay_uses_the_net_outflow_side() {
    let c = DelayConfig::default();
    let state = MarketState { market: market(100, 100), bookkeeping: bookkeeping(0), current_slot: 0 };
    // Base outflow 10, base inflow 2 * 100 / 100 = 2: 80 / 8 = 10 units left.
    let pos = position(0, 10, 0, 2);
    let balances = LiquidityPositionBalances { base_balance: 80, quote_balance: 1_000, base_debt: 0, quote_debt: 0 };
    assert_eq!(calculate_update_delay(&pos, &state, &balances, &c), 100);
    // Balanced flows: no side runs dry.
    let even = position(0, 5, 0, 5);
    assert_eq!(calculate_update_delay(&even, &state, &balances, &c), 402_000);
    // A market without flow on a side gives the normal delay.
    let empty = MarketState { market: market(0, 100), bookkeeping: bookkeeping(0), current_slot: 0 };
    assert_eq!(calculate_update_delay(&pos, &empty, &balances, &c), 2_000);
}

#[test]
fn window_range_covers_the_replay() {
    // Windows are 4 steps of 10 units: 40 units each.
    assert_eq!(exit_window_range(&bookkeeping(5), &market(1, 1), 125, &params()), Some((0, 3)));
    assert_eq!(exit_window_range(&bookkeeping(125), &market(1, 1), 125, &params()), None);
    let mut m = market(1, 1);
    m.end_slot_interval = 0;
    assert_eq!(exit_window_range(&bookkeeping(5), &m, 125, &params()), None);
}
