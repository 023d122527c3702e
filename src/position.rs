//! Position evaluation: the stop-or-retarget decision and the adaptive delay
//! before a reactive update fires.

use vstd::prelude::*;
use crate::reconcile::{get_liquidity_position_balances, reconciled, ReconcileError};
use crate::state::{
    ExitWindow, LiquidityPosition, LiquidityPositionBalances, Market, MarketState, VenueParams,
};

verus! {

/// What to do with the position.
#[derive(Clone, Copy, Debug, PartialEq, Eq, Structural)]
pub enum PositionAction {
    /// The position has accrued debt: stop it.
    Stop { reference_index: u64 },
    /// Retarget the position's flows.
    UpdateFlows { base_flow: u64, quote_flow: u64, reference_index: u64 },
}

/// A decision together with the snapshot it was made from.
#[derive(Clone, Copy, Debug)]
pub struct EvaluationResult {
    pub action: PositionAction,
    pub market_state: MarketState,
    pub position: LiquidityPosition,
    pub balances: LiquidityPositionBalances,
}

/// The window index that contains `current_slot`.
pub open spec fn window_index(current_slot: u64, array_length: u64, interval: u64) -> int {
    current_slot as int / array_length as int / interval as int
}

/// Stop on any debt; otherwise size each flow so that the balance would be
/// drawn down over `flow_divisor` windows.
pub open spec fn decide(balances: LiquidityPositionBalances, reference_index: u64, flow_divisor: u64) -> PositionAction {
    if balances.base_debt > 0 || balances.quote_debt > 0 {
        PositionAction::Stop { reference_index }
    } else {
        PositionAction::UpdateFlows {
            base_flow: (balances.base_balance / flow_divisor) as u64,
            quote_flow: (balances.quote_balance / flow_divisor) as u64,
            reference_index,
        }
    }
}

/// Reconciles the position against one consistent market snapshot and decides
/// whether to stop it or retarget its flows.
///
/// `windows` holds the exit journals that reconciliation replays (see
/// `reconstruct_integrals`).
pub fn evaluate_position(
    market_state: &MarketState,
    position: &LiquidityPosition,
    windows: &Vec<Option<ExitWindow>>,
    params: &VenueParams,
    flow_divisor: u64,
) -> (r: Result<EvaluationResult, ReconcileError>)
    requires
        params.wf(),
        flow_divisor > 0,
    ensures
        match r {
            Ok(e) => {
                &&& reconciled(*position, market_state.bookkeeping, market_state.market, windows@,
                    market_state.current_slot, *params) == Some(e.balances)
                &&& market_state.market.end_slot_interval > 0
                &&& e.action == decide(e.balances, window_index(market_state.current_slot,
                    params.array_length, market_state.market.end_slot_interval) as u64, flow_divisor)
                &&& e.market_state == *market_state
                &&& e.position == *position
            },
            Err(_) => reconciled(*position, market_state.bookkeeping, market_state.market, windows@,
                market_state.current_slot, *params) is None,
        },
{
    let balances = match get_liquidity_position_balances(
        position,
        &market_state.bookkeeping,
        &market_state.market,
        windows,
        market_state.current_slot,
        params,
    ) {
        Ok(b) => b,
        Err(e) => return Err(e),
    };
    let reference_index = market_state.current_slot / params.array_length / market_state.market.end_slot_interval;
    let action = if balances.base_debt > 0 || balances.quote_debt > 0 {
        PositionAction::Stop { reference_index }
    } else {
        PositionAction::UpdateFlows {
            base_flow: balances.base_balance / flow_divisor,
            quote_flow: balances.quote_balance / flow_divisor,
            reference_index,
        }
    };
    Ok(EvaluationResult { action, market_state: *market_state, position: *position, balances })
}

/// Constants of the adaptive delay curve. Thresholds are in ledger-time units,
/// delays in milliseconds.
#[derive(Clone, Copy, Debug, PartialEq, Eq)]
pub struct DelayConfig {
    pub critical_threshold: u128,
    pub safe_threshold: u128,
    pub critical_delay_ms: u128,
    pub normal_delay_ms: u128,
    pub delay_scale_factor: u128,
    pub max_additional_slots: u128,
}

impl DelayConfig {
    /// The curve starts at the critical delay and its largest value fits in a `u64`.
    pub open spec fn wf(&self) -> bool {
        &&& self.critical_delay_ms <= self.normal_delay_ms
        &&& self.normal_delay_ms + self.max_additional_slots * self.delay_scale_factor <= u64::MAX
        &&& self.safe_threshold + self.max_additional_slots <= u128::MAX
    }
}

impl Default for DelayConfig {
    fn default() -> (r: Self)
        ensures
            r.critical_threshold == 25,
            r.safe_threshold == 10_000,
            r.critical_delay_ms == 100,
            r.normal_delay_ms == 2_000,
            r.delay_scale_factor == 400,
            r.max_additional_slots == 1_000,
            r.wf(),
    {
        DelayConfig {
            critical_threshold: 25,
            safe_threshold: 10_000,
            critical_delay_ms: 100,
            normal_delay_ms: 2_000,
            delay_scale_factor: 400,
            max_additional_slots: 1_000,
        }
    }
}

/// The delay for a position that runs into debt in `slots` ledger-time units.
pub open spec fn delay_curve(slots: int, config: DelayConfig) -> int {
    if slots <= config.critical_threshold {
        config.critical_delay_ms as int
    } else if slots <= config.safe_threshold {
        config.normal_delay_ms as int
    } else {
        let capped = if slots < config.safe_threshold + config.max_additional_slots {
            slots
        } else {
            config.safe_threshold + config.max_additional_slots
        };
        config.normal_delay_ms + (capped - config.safe_threshold) * config.delay_scale_factor
    }
}

/// Ledger-time units until the side with net outflow runs dry, `u64::MAX`
/// where neither side has net outflow. `None` where the market has no flow on
/// a side or the inflow estimate does not fit in a `u128`.
pub open spec fn slots_until_debt(
    position: LiquidityPosition,
    market: Market,
    balances: LiquidityPositionBalances,
) -> Option<int> {
    let base_out = position.base_flow_u64 as int;
    let quote_out = position.quote_flow_u64 as int;
    let mb = market.base_flow as int;
    let mq = market.quote_flow as int;
    if mb == 0 || mq == 0 || quote_out * mb > u128::MAX || base_out * mq > u128::MAX {
        None
    } else {
        let base_in = quote_out * mb / mq;
        let quote_in = base_out * mq / mb;
        if base_out > base_in {
            Some(balances.base_balance as int / (base_out - base_in))
        } else if quote_out > quote_in {
            Some(balances.quote_balance as int / (quote_out - quote_in))
        } else {
            Some(u64::MAX as int)
        }
    }
}

fn slots_until_debt_exec(
    position: &LiquidityPosition,
    market: &Market,
    balances: &LiquidityPositionBalances,
) -> (r: Option<u128>)
    ensures
        match r {
            Some(v) => slots_until_debt(*position, *market, *balances) == Some(v as int),
            None => slots_until_debt(*position, *market, *balances) is None,
        },
{
    let base_out = position.base_flow_u64 as u128;
    let quote_out = position.quote_flow_u64 as u128;
    if market.base_flow == 0 || market.quote_flow == 0 {
        return None;
    }
    let base_in = match quote_out.checked_mul(market.base_flow) {
        Some(v) => v / market.quote_flow,
        None => return None,
    };
    let quote_in = match base_out.checked_mul(market.quote_flow) {
        Some(v) => v / market.base_flow,
        None => return None,
    };
    if base_out > base_in {
        Some(balances.base_balance as u128 / (base_out - base_in))
    } else if quote_out > quote_in {
        Some(balances.quote_balance as u128 / (quote_out - quote_in))
    } else {
        Some(u64::MAX as u128)
    }
}

/// The delay for a position that runs into debt in `slots` ledger-time units.
pub fn delay_for_slots(slots: u128, delay_config: &DelayConfig) -> (r: u64)
    requires
        delay_config.wf(),
    ensures
        r == delay_curve(slots as int, *delay_config),
{
    let c = delay_config;
    if slots <= c.critical_threshold {
        c.critical_delay_ms as u64
    } else if slots <= c.safe_threshold {
        c.normal_delay_ms as u64
    } else {
        let cap = c.safe_threshold + c.max_additional_slots;
        let capped = if slots < cap { slots } else { cap };
        let additional = capped - c.safe_threshold;
        proof {
            assert(additional * c.delay_scale_factor <= c.max_additional_slots * c.delay_scale_factor) by (nonlinear_arith)
                requires additional <= c.max_additional_slots;
        }
        (additional * c.delay_scale_factor + c.normal_delay_ms) as u64
    }
}

/// How long to wait before a reactive flow update fires: the delay curve
/// applied to the time until the position runs into debt, or the normal delay
/// where that time cannot be estimated.
pub fn calculate_update_delay(
    position: &LiquidityPosition,
    market_state: &MarketState,
    balances: &LiquidityPositionBalances,
    delay_config: &DelayConfig,
) -> (r: u64)
    requires
        delay_config.wf(),
    ensures
        r == match slots_until_debt(*position, market_state.market, *balances) {
            Some(s) => delay_curve(s, *delay_config),
            None => delay_config.normal_delay_ms as int,
        },
{
    match slots_until_debt_exec(position, &market_state.market, balances) {
        Some(s) => delay_for_slots(s, delay_config),
        None => delay_config.normal_delay_ms as u64,
    }
}

/// The delay never shrinks as the time until debt grows, and it stays between
/// the critical delay and the normal delay plus the largest additional delay.
pub proof fn lemma_delay_monotone_and_bounded(s1: int, s2: int, config: DelayConfig)
    requires
        config.wf(),
        s1 <= s2,
    ensures
        delay_curve(s1, config) <= delay_curve(s2, config),
        config.critical_delay_ms <= delay_curve(s1, config),
        delay_curve(s2, config) <= config.normal_delay_ms + config.max_additional_slots * config.delay_scale_factor,
{
    let c = config;
    let top = c.safe_threshold + c.max_additional_slots;
    let a1 = if s1 < top { s1 } else { top };
    let a2 = if s2 < top { s2 } else { top };
    assert(0 <= c.max_additional_slots * c.delay_scale_factor) by (nonlinear_arith);
    if s1 > c.safe_threshold {
        assert((a1 - c.safe_threshold) * c.delay_scale_factor <= (a2 - c.safe_threshold) * c.delay_scale_factor) by (nonlinear_arith)
            requires a1 <= a2;
        assert(0 <= (a1 - c.safe_threshold) * c.delay_scale_factor) by (nonlinear_arith)
            requires a1 >= c.safe_threshold;
    }
    if s2 > c.safe_threshold {
        assert((a2 - c.safe_threshold) * c.delay_scale_factor <= c.max_additional_slots * c.delay_scale_factor) by (nonlinear_arith)
            requires a2 - c.safe_threshold <= c.max_additional_slots;
        assert(0 <= (a2 - c.safe_threshold) * c.delay_scale_factor) by (nonlinear_arith)
            requires a2 >= c.safe_threshold;
    }
}

} // verus!
