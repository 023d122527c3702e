//! Read-only snapshots of the venue's ledger accounts, held as plain values.

use vstd::prelude::*;

verus! {

/// Constants of the venue's on-ledger program.
#[derive(Clone, Copy, Debug, PartialEq, Eq)]
pub struct VenueParams {
    /// Fixed-point scale of every accrual integral and stored balance.
    pub precision: u128,
    /// Number of steps in one exit window.
    pub array_length: u64,
}

impl VenueParams {
    pub open spec fn wf(&self) -> bool {
        self.precision > 0 && self.array_length > 0
    }
}

/// Aggregate state of one market.
#[derive(Clone, Copy, Debug, PartialEq, Eq)]
pub struct Market {
    pub id: u64,
    /// Aggregate base flow rate, scaled.
    pub base_flow: u128,
    /// Aggregate quote flow rate, scaled.
    pub quote_flow: u128,
    /// Ledger-time units between two steps of an exit window.
    pub end_slot_interval: u64,
}

/// The market's accrual checkpoint.
#[derive(Clone, Copy, Debug, PartialEq, Eq)]
pub struct Bookkeeping {
    pub base_per_quote: u128,
    pub quote_per_base: u128,
    pub last_update_slot: u64,
    pub slots_without_trade: u64,
}

/// The journal of flow reductions caused by exits during one window.
#[derive(Clone, Debug, PartialEq, Eq)]
pub struct ExitWindow {
    pub base_exits: Vec<u128>,
    pub quote_exits: Vec<u128>,
}

/// One provider's stake, as of its last settlement.
#[derive(Clone, Copy, Debug, PartialEq, Eq)]
pub struct LiquidityPosition {
    /// Stored balances and debts, scaled by the precision factor.
    pub base_balance: u128,
    pub quote_balance: u128,
    pub base_debt: u128,
    pub quote_debt: u128,
    /// The position's quoted flow rates.
    pub base_flow_u64: u64,
    pub quote_flow_u64: u64,
    pub last_update_slot: u64,
    pub slots_without_trade_snapshot: u64,
    pub base_per_quote_snapshot: u128,
    pub quote_per_base_snapshot: u128,
}

/// One consistent read of a market, its checkpoint and the ledger time.
#[derive(Clone, Copy, Debug, PartialEq, Eq)]
pub struct MarketState {
    pub market: Market,
    pub bookkeeping: Bookkeeping,
    pub current_slot: u64,
}

/// Projected balances and debts of a position, in native token units.
#[derive(Clone, Copy, Debug, PartialEq, Eq)]
pub struct LiquidityPositionBalances {
    pub base_balance: u64,
    pub quote_balance: u64,
    pub base_debt: u64,
    pub quote_debt: u64,
}

/// Running state while the accrual integrals are replayed forward in time.
#[derive(Clone, Copy, Debug, PartialEq, Eq)]
pub struct Accrual {
    pub base_per_quote: u128,
    pub quote_per_base: u128,
    pub base_flow: u128,
    pub quote_flow: u128,
    pub slot: u64,
}

} // verus!
