//! Inventory-flow control for a liquidity position on a flow-based trading venue.
//!
//! The library reconstructs a position's balances from ledger snapshots,
//! decides whether to stop the position or retarget its flows, schedules
//! reactive updates, shrinks rejected updates, and sizes oracle-driven quotes.
//! Everything that talks to the ledger or the network lives outside this crate;
//! the functions here take plain snapshots and return plain decisions.

pub mod backoff;
pub mod bps;
pub mod position;
pub mod price;
pub mod quote;
pub mod reconcile;
pub mod scheduler;
pub mod state;

pub use backoff::{
    backoff_step, classify_simulation, contains_bytes, shrink_flow, start_backoff, BackoffError,
    BackoffState, BackoffStep, SimulationReport, SimulationVerdict, UnhealthySignature,
};
pub use position::{
    calculate_update_delay, delay_for_slots, evaluate_position, DelayConfig, EvaluationResult,
    PositionAction,
};
pub use price::{
    json_type, parse_timestamp, timestamp_from_parses, unix_now, FeedValue, PriceData,
    TimestampError, PRICE_SCALE,
};
pub use quote::{
    base_flow_for_price, blend_price, calculate_optimal_quote, compute_target_flows,
    liquidity_position_price, market_price_excluding_position, needs_rebalance,
    quote_flow_for_price, should_update_quote, OptimalQuote,
};
pub use reconcile::{
    exit_window_range, get_liquidity_position_balances, reconstruct_integrals, ReconcileError,
};
pub use scheduler::{
    plan_reaction, PeriodicOutcome, ReactivePlan, Reaction, Scheduler, SchedulerCommand,
    SchedulerEvent,
};
pub use state::{
    Accrual, Bookkeeping, ExitWindow, LiquidityPosition, LiquidityPositionBalances, Market,
    MarketState, VenueParams,
};
