//! Balance reconciliation: replays the market's accrual integrals from the last
//! checkpoint up to the current ledger time and settles a position against them.

use vstd::prelude::*;
use crate::state::{
    Accrual, Bookkeeping, ExitWindow, LiquidityPosition, LiquidityPositionBalances, Market,
    VenueParams,
};

verus! {

/// Why a position could not be reconciled.
#[derive(Clone, Copy, Debug, PartialEq, Eq)]
pub enum ReconcileError {
    /// The snapshots are inconsistent (time running backwards, an exit larger
    /// than the flow it leaves, a zero window length), or a value leaves the
    /// range of the fixed-point representation.
    OutOfRange,
}

pub open spec fn fits_u128(x: int) -> bool {
    0 <= x <= u128::MAX
}

pub open spec fn fits_u64(x: int) -> bool {
    0 <= x <= u64::MAX
}

/// Adds `precision * num / den` per time unit over `diff` units to `acc`.
pub open spec fn accrue(acc: u128, num: u128, den: u128, diff: int, precision: u128) -> Option<u128> {
    let scaled = precision * num;
    let increment = (scaled / den as int) * diff;
    if fits_u128(scaled) && fits_u128(increment) && fits_u128(acc + increment) {
        Some((acc + increment) as u128)
    } else {
        None
    }
}

/// Integrates the running flows up to `slot`, then removes the exits recorded there.
/// A step during which either running flow is zero contributes nothing.
pub open spec fn advance(s: Accrual, slot: u64, exit_base: u128, exit_quote: u128, precision: u128) -> Option<Accrual> {
    let diff = slot - s.slot;
    if s.base_flow == 0 || s.quote_flow == 0 {
        Some(Accrual { slot, ..s })
    } else {
        match (accrue(s.base_per_quote, s.base_flow, s.quote_flow, diff, precision),
               accrue(s.quote_per_base, s.quote_flow, s.base_flow, diff, precision)) {
            (Some(bpq), Some(qpb)) => if exit_base <= s.base_flow && exit_quote <= s.quote_flow {
                Some(Accrual {
                    base_per_quote: bpq,
                    quote_per_base: qpb,
                    base_flow: (s.base_flow - exit_base) as u128,
                    quote_flow: (s.quote_flow - exit_quote) as u128,
                    slot,
                })
            } else {
                None
            },
            _ => None,
        }
    }
}

pub open spec fn entry_or_zero(v: Seq<u128>, i: int) -> u128 {
    if 0 <= i < v.len() { v[i] } else { 0 }
}

/// The (base, quote) exits recorded at global step `step`; zero where the
/// window's journal is missing. `windows[k]` is the journal of window `first_window + k`.
pub open spec fn exit_at(windows: Seq<Option<ExitWindow>>, first_window: int, array_length: int, step: int) -> (u128, u128) {
    let k = step / array_length - first_window;
    let i = step % array_length;
    if 0 <= k < windows.len() {
        match windows[k] {
            Some(w) => (entry_or_zero(w.base_exits@, i), entry_or_zero(w.quote_exits@, i)),
            None => (0, 0),
        }
    } else {
        (0, 0)
    }
}

/// The state after visiting `n` consecutive steps, starting at global step `first_step`.
pub open spec fn replay(
    start: Accrual,
    windows: Seq<Option<ExitWindow>>,
    first_window: int,
    array_length: int,
    interval: int,
    first_step: int,
    n: nat,
    precision: u128,
) -> Option<Accrual>
    decreases n,
{
    if n == 0 {
        Some(start)
    } else {
        match replay(start, windows, first_window, array_length, interval, first_step, (n - 1) as nat, precision) {
            Some(s) => {
                let g = first_step + n - 1;
                let e = exit_at(windows, first_window, array_length, g);
                advance(s, (g * interval) as u64, e.0, e.1, precision)
            },
            None => None,
        }
    }
}

/// The state at the checkpoint: the stored integrals and the market's reported flows.
pub open spec fn checkpoint(bk: Bookkeeping, market: Market) -> Accrual {
    Accrual {
        base_per_quote: bk.base_per_quote,
        quote_per_base: bk.quote_per_base,
        base_flow: market.base_flow,
        quote_flow: market.quote_flow,
        slot: bk.last_update_slot,
    }
}

/// The accrual integrals as of `current_slot`: every step strictly after the
/// checkpoint up to the current one is visited, then the partial step up to
/// `current_slot` is integrated.
pub open spec fn reconstruct(
    bk: Bookkeeping,
    market: Market,
    windows: Seq<Option<ExitWindow>>,
    current_slot: u64,
    params: VenueParams,
) -> Option<Accrual> {
    let w = market.end_slot_interval as int;
    let a = params.array_length as int;
    if w == 0 {
        None
    } else if current_slot <= bk.last_update_slot {
        Some(checkpoint(bk, market))
    } else {
        let last = bk.last_update_slot as int;
        let first_step = last / w + 1;
        let n = current_slot as int / w - last / w;
        let first_window = last / a / w;
        match replay(checkpoint(bk, market), windows, first_window, a, w, first_step, n as nat, params.precision) {
            Some(s) => advance(s, current_slot, 0, 0, params.precision),
            None => None,
        }
    }
}

/// `(stored + inflow - outflow) / precision` as a balance, or the shortfall as a debt.
pub open spec fn settle(stored: u128, inflow: u128, outflow: u128, precision: u128) -> Option<(u64, u64)> {
    let total = stored + inflow;
    if !fits_u128(total) {
        None
    } else if outflow > total {
        let debt = (outflow - total) / precision as int;
        if fits_u64(debt) { Some((0u64, debt as u64)) } else { None }
    } else {
        let balance = (total - outflow) / precision as int;
        if fits_u64(balance) { Some((balance as u64, 0u64)) } else { None }
    }
}

/// Ledger time during which the position's outflow accrued.
pub open spec fn elapsed_active(pos: LiquidityPosition, bk: Bookkeeping, current_slot: u64) -> int {
    current_slot - pos.last_update_slot - (bk.slots_without_trade - pos.slots_without_trade_snapshot)
}

pub open spec fn outflow(precision: u128, elapsed: int, flow: u64) -> Option<u128> {
    let v = precision * elapsed * flow;
    if fits_u128(v) { Some(v as u128) } else { None }
}

pub open spec fn inflow(integral: u128, snapshot: u128, opposite_flow: u64) -> Option<u128> {
    let v = (integral - snapshot) * opposite_flow;
    if integral >= snapshot && fits_u128(v) { Some(v as u128) } else { None }
}

/// The balances of `pos` at `current_slot`, or `None` where the snapshots are
/// inconsistent or a value leaves the fixed-point range.
pub open spec fn reconciled(
    pos: LiquidityPosition,
    bk: Bookkeeping,
    market: Market,
    windows: Seq<Option<ExitWindow>>,
    current_slot: u64,
    params: VenueParams,
) -> Option<LiquidityPositionBalances> {
    let p = params.precision;
    let elapsed = elapsed_active(pos, bk, current_slot);
    if bk.slots_without_trade < pos.slots_without_trade_snapshot || elapsed < 0 {
        None
    } else {
        match (outflow(p, elapsed, pos.base_flow_u64), outflow(p, elapsed, pos.quote_flow_u64),
               reconstruct(bk, market, windows, current_slot, params)) {
            (Some(base_out), Some(quote_out), Some(acc)) => {
                match (inflow(acc.base_per_quote, pos.base_per_quote_snapshot, pos.quote_flow_u64),
                       inflow(acc.quote_per_base, pos.quote_per_base_snapshot, pos.base_flow_u64)) {
                    (Some(base_in), Some(quote_in)) => {
                        match (settle(pos.base_balance, base_in, base_out, p),
                               settle(pos.quote_balance, quote_in, quote_out, p)) {
                            (Some(b), Some(q)) => Some(LiquidityPositionBalances {
                                base_balance: b.0,
                                base_debt: b.1,
                                quote_balance: q.0,
                                quote_debt: q.1,
                            }),
                            _ => None,
                        }
                    },
                    _ => None,
                }
            },
            _ => None,
        }
    }
}

fn accrue_exec(acc: u128, num: u128, den: u128, diff: u64, precision: u128) -> (r: Option<u128>)
    requires
        den > 0,
    ensures
        r == accrue(acc, num, den, diff as int, precision),
{
    let scaled = match precision.checked_mul(num) {
        Some(v) => v,
        None => return None,
    };
    let increment = match (scaled / den).checked_mul(diff as u128) {
        Some(v) => v,
        None => return None,
    };
    acc.checked_add(increment)
}

fn advance_exec(s: Accrual, slot: u64, exit_base: u128, exit_quote: u128, precision: u128) -> (r: Option<Accrual>)
    requires
        slot >= s.slot,
    ensures
        r == advance(s, slot, exit_base, exit_quote, precision),
{
    if s.base_flow == 0 || s.quote_flow == 0 {
        return Some(Accrual { slot, ..s });
    }
    let diff = slot - s.slot;
    let bpq = accrue_exec(s.base_per_quote, s.base_flow, s.quote_flow, diff, precision);
    let qpb = accrue_exec(s.quote_per_base, s.quote_flow, s.base_flow, diff, precision);
    match (bpq, qpb) {
        (Some(bpq), Some(qpb)) => {
            if exit_base <= s.base_flow && exit_quote <= s.quote_flow {
                Some(Accrual {
                    base_per_quote: bpq,
                    quote_per_base: qpb,
                    base_flow: s.base_flow - exit_base,
                    quote_flow: s.quote_flow - exit_quote,
                    slot,
                })
            } else {
                None
            }
        },
        _ => None,
    }
}

fn entry_or_zero_exec(v: &Vec<u128>, i: u64) -> (r: u128)
    ensures
        r == entry_or_zero(v@, i as int),
{
    if (i as u128) < (v.len() as u128) {
        v[i as usize]
    } else {
        0
    }
}

/// The (base, quote) exits recorded at global step `step`.
fn exit_amounts(windows: &Vec<Option<ExitWindow>>, first_window: u64, array_length: u64, step: u64) -> (r: (u128, u128))
    requires
        array_length > 0,
    ensures
        r == exit_at(windows@, first_window as int, array_length as int, step as int),
{
    let window = step / array_length;
    let i = step % array_length;
    if window < first_window {
        return (0, 0);
    }
    let k = window - first_window;
    if (k as u128) >= (windows.len() as u128) {
        return (0, 0);
    }
    match &windows[k as usize] {
        Some(w) => (entry_or_zero_exec(&w.base_exits, i), entry_or_zero_exec(&w.quote_exits, i)),
        None => (0, 0),
    }
}

/// The first and last window whose exit journals a replay up to
/// `current_slot` reads; `None` where nothing is replayed.
pub fn exit_window_range(bk: &Bookkeeping, market: &Market, current_slot: u64, params: &VenueParams) -> (r: Option<(u64, u64)>)
    requires
        params.wf(),
    ensures
        match r {
            Some((first, last)) => {
                &&& market.end_slot_interval > 0
                &&& current_slot > bk.last_update_slot
                &&& first == bk.last_update_slot as int / params.array_length as int / market.end_slot_interval as int
                &&& last == current_slot as int / params.array_length as int / market.end_slot_interval as int
            },
            None => market.end_slot_interval == 0 || current_slot <= bk.last_update_slot,
        },
{
    let w = market.end_slot_interval;
    if w == 0 || current_slot <= bk.last_update_slot {
        return None;
    }
    Some((bk.last_update_slot / params.array_length / w, current_slot / params.array_length / w))
}

proof fn lemma_replay_fails_onward(
    start: Accrual,
    windows: Seq<Option<ExitWindow>>,
    first_window: int,
    array_length: int,
    interval: int,
    first_step: int,
    i: nat,
    n: nat,
    precision: u128,
)
    requires
        i <= n,
        replay(start, windows, first_window, array_length, interval, first_step, i, precision) is None,
    ensures
        replay(start, windows, first_window, array_length, interval, first_step, n, precision) is None,
    decreases n - i,
{
    if i < n {
        lemma_replay_fails_onward(start, windows, first_window, array_length, interval, first_step, i, (n - 1) as nat, precision);
    }
}

/// Replays the accrual integrals from the checkpoint up to `current_slot`.
///
/// `windows[k]` holds the exit journal of window
/// `bk.last_update_slot / params.array_length / market.end_slot_interval + k`,
/// or `None` where that journal does not exist yet (no exits).
pub fn reconstruct_integrals(
    bk: &Bookkeeping,
    market: &Market,
    windows: &Vec<Option<ExitWindow>>,
    current_slot: u64,
    params: &VenueParams,
) -> (r: Option<Accrual>)
    requires
        params.wf(),
    ensures
        r == reconstruct(*bk, *market, windows@, current_slot, *params),
{
    let w = market.end_slot_interval;
    let a = params.array_length;
    let p = params.precision;
    if w == 0 {
        return None;
    }
    let start = Accrual {
        base_per_quote: bk.base_per_quote,
        quote_per_base: bk.quote_per_base,
        base_flow: market.base_flow,
        quote_flow: market.quote_flow,
        slot: bk.last_update_slot,
    };
    if current_slot <= bk.last_update_slot {
        return Some(start);
    }
    let last = bk.last_update_slot;
    proof {
        assert(last as int / w as int <= current_slot as int / w as int) by (nonlinear_arith)
            requires last < current_slot, w > 0;
    }
    let first_step = last / w + 1;
    let n = current_slot / w - last / w;
    let first_window = last / a / w;
    proof {
        assert(first_step * w > last) by (nonlinear_arith)
            requires first_step == last / w + 1, w > 0;
    }
    let ghost seq = windows@;
    let mut s = start;
    let mut i: u64 = 0;
    while i < n
        invariant
            w > 0,
            a > 0,
            last < current_slot,
            last == bk.last_update_slot,
            w == market.end_slot_interval,
            a == params.array_length,
            p == params.precision,
            first_window == last / a / w,
            first_step == last / w + 1,
            n == current_slot / w - last / w,
            first_step * w > last,
            i <= n,
            seq == windows@,
            start == checkpoint(*bk, *market),
            replay(start, seq, first_window as int, a as int, w as int, first_step as int, i as nat, p) == Some(s),
            i == 0 ==> s.slot == last,
            i > 0 ==> s.slot == (first_step + i - 1) * w,
            s.slot <= current_slot,
        decreases n - i,
    {
        let g = first_step + i;
        proof {
            assert(g * w <= current_slot) by (nonlinear_arith)
                requires g <= current_slot / w, w > 0;
            assert(i > 0 ==> (first_step + i - 1) * w <= g * w) by (nonlinear_arith)
                requires g == first_step + i, w > 0;
            assert(first_step * w <= g * w) by (nonlinear_arith)
                requires g >= first_step, w > 0;
        }
        let slot = g * w;
        let e = exit_amounts(windows, first_window, a, g);
        match advance_exec(s, slot, e.0, e.1, p) {
            Some(next) => {
                s = next;
            },
            None => {
                proof {
                    assert(replay(start, seq, first_window as int, a as int, w as int, first_step as int, (i + 1) as nat, p) is None);
                    lemma_replay_fails_onward(start, seq, first_window as int, a as int, w as int, first_step as int, (i + 1) as nat, n as nat, p);
                }
                return None;
            },
        }
        i = i + 1;
    }
    advance_exec(s, current_slot, 0, 0, p)
}

fn outflow_exec(precision: u128, elapsed: u64, flow: u64) -> (r: Option<u128>)
    ensures
        r == outflow(precision, elapsed as int, flow),
{
    if flow == 0 {
        proof {
            assert(precision * elapsed * 0 == 0) by (nonlinear_arith);
        }
        return Some(0);
    }
    match precision.checked_mul(elapsed as u128) {
        Some(pe) => pe.checked_mul(flow as u128),
        None => {
            proof {
                assert(precision * elapsed * flow >= precision * elapsed) by (nonlinear_arith)
                    requires flow >= 1;
            }
            None
        },
    }
}

fn inflow_exec(integral: u128, snapshot: u128, opposite_flow: u64) -> (r: Option<u128>)
    ensures
        r == inflow(integral, snapshot, opposite_flow),
{
    if integral < snapshot {
        return None;
    }
    (integral - snapshot).checked_mul(opposite_flow as u128)
}

fn settle_exec(stored: u128, inflow: u128, outflow: u128, precision: u128) -> (r: Option<(u64, u64)>)
    requires
        precision > 0,
    ensures
        r == settle(stored, inflow, outflow, precision),
{
    let total = match stored.checked_add(inflow) {
        Some(t) => t,
        None => return None,
    };
    if outflow > total {
        let debt = (outflow - total) / precision;
        if debt <= u64::MAX as u128 { Some((0, debt as u64)) } else { None }
    } else {
        let balance = (total - outflow) / precision;
        if balance <= u64::MAX as u128 { Some((balance as u64, 0)) } else { None }
    }
}

/// `r` is what reconciling `pos` gives: the reconciled balances, or an error
/// exactly where there are none.
pub open spec fn reconcile_outcome(
    r: Result<LiquidityPositionBalances, ReconcileError>,
    pos: LiquidityPosition,
    bk: Bookkeeping,
    market: Market,
    windows: Seq<Option<ExitWindow>>,
    current_slot: u64,
    params: VenueParams,
) -> bool {
    match r {
        Ok(b) => reconciled(pos, bk, market, windows, current_slot, params) == Some(b),
        Err(_) => reconciled(pos, bk, market, windows, current_slot, params) is None,
    }
}

/// Projects the balances and debts of `position` at `current_slot`.
///
/// Outflow accrues at the position's own flow rates over the ledger time that
/// passed since its last settlement, less the time the market was inactive.
/// Inflow is the growth of the replayed accrual integrals since the position's
/// snapshots, times the opposite side's flow rate. Per side, a shortfall turns
/// into debt and leaves the balance at zero.
pub fn get_liquidity_position_balances(
    liquidity_position: &LiquidityPosition,
    bookkeeping: &Bookkeeping,
    market: &Market,
    windows: &Vec<Option<ExitWindow>>,
    current_slot: u64,
    params: &VenueParams,
) -> (r: Result<LiquidityPositionBalances, ReconcileError>)
    requires
        params.wf(),
    ensures
        reconcile_outcome(r, *liquidity_position, *bookkeeping, *market, windows@, current_slot, *params),
{
    let pos = liquidity_position;
    let p = params.precision;
    if bookkeeping.slots_without_trade < pos.slots_without_trade_snapshot {
        return Err(ReconcileError::OutOfRange);
    }
    let inactive = bookkeeping.slots_without_trade - pos.slots_without_trade_snapshot;
    if current_slot < pos.last_update_slot || current_slot - pos.last_update_slot < inactive {
        return Err(ReconcileError::OutOfRange);
    }
    let elapsed = current_slot - pos.last_update_slot - inactive;
    let base_out = outflow_exec(p, elapsed, pos.base_flow_u64);
    let quote_out = outflow_exec(p, elapsed, pos.quote_flow_u64);
    let acc = reconstruct_integrals(bookkeeping, market, windows, current_slot, params);
    let (base_out, quote_out, acc) = match (base_out, quote_out, acc) {
        (Some(b), Some(q), Some(a)) => (b, q, a),
        _ => return Err(ReconcileError::OutOfRange),
    };
    let base_in = inflow_exec(acc.base_per_quote, pos.base_per_quote_snapshot, pos.quote_flow_u64);
    let quote_in = inflow_exec(acc.quote_per_base, pos.quote_per_base_snapshot, pos.base_flow_u64);
    let (base_in, quote_in) = match (base_in, quote_in) {
        (Some(b), Some(q)) => (b, q),
        _ => return Err(ReconcileError::OutOfRange),
    };
    let base = settle_exec(pos.base_balance, base_in, base_out, p);
    let quote = settle_exec(pos.quote_balance, quote_in, quote_out, p);
    match (base, quote) {
        (Some(b), Some(q)) => Ok(LiquidityPositionBalances {
            base_balance: b.0,
            base_debt: b.1,
            quote_balance: q.0,
            quote_debt: q.1,
        }),
        _ => Err(ReconcileError::OutOfRange),
    }
}

/// Every exit recorded in the given journals is zero.
pub open spec fn no_exits(windows: Seq<Option<ExitWindow>>) -> bool {
    forall|k: int, i: int| #![trigger windows[k], entry_or_zero(windows[k]->Some_0.base_exits@, i)]
        0 <= k < windows.len() && windows[k] is Some ==> entry_or_zero(windows[k]->Some_0.base_exits@, i) == 0
            && entry_or_zero(windows[k]->Some_0.quote_exits@, i) == 0
}

proof fn lemma_replay_without_exits(
    start: Accrual,
    windows: Seq<Option<ExitWindow>>,
    first_window: int,
    array_length: int,
    interval: int,
    first_step: int,
    n: nat,
    precision: u128,
)
    requires
        no_exits(windows),
        start.base_flow > 0,
        start.quote_flow > 0,
        replay(start, windows, first_window, array_length, interval, first_step, n, precision) is Some,
    ensures
        ({
            let s = replay(start, windows, first_window, array_length, interval, first_step, n, precision)->Some_0;
            &&& s.base_flow == start.base_flow
            &&& s.quote_flow == start.quote_flow
            &&& s.base_per_quote == start.base_per_quote
                + (precision * start.base_flow / start.quote_flow as int) * (s.slot - start.slot)
            &&& s.quote_per_base == start.quote_per_base
                + (precision * start.quote_flow / start.base_flow as int) * (s.slot - start.slot)
        }),
    decreases n,
{
    if n > 0 {
        let prev = replay(start, windows, first_window, array_length, interval, first_step, (n - 1) as nat, precision);
        lemma_replay_without_exits(start, windows, first_window, array_length, interval, first_step, (n - 1) as nat, precision);
        let sp = prev->Some_0;
        let g = first_step + n - 1;
        let k = g / array_length - first_window;
        let i = g % array_length;
        if 0 <= k < windows.len() && windows[k] is Some {
            assert(entry_or_zero(windows[k]->Some_0.base_exits@, i) == 0);
        }
        let e = exit_at(windows, first_window, array_length, g);
        assert(e == (0u128, 0u128));
        let s = replay(start, windows, first_window, array_length, interval, first_step, n, precision)->Some_0;
        let rb = precision * start.base_flow / start.quote_flow as int;
        let rq = precision * start.quote_flow / start.base_flow as int;
        assert(rb * (sp.slot - start.slot) + rb * (s.slot - sp.slot) == rb * (s.slot - start.slot)) by (nonlinear_arith);
        assert(rq * (sp.slot - start.slot) + rq * (s.slot - sp.slot) == rq * (s.slot - start.slot)) by (nonlinear_arith);
    }
}

proof fn lemma_reconstruct_without_exits_when_some(
    bk: Bookkeeping,
    market: Market,
    windows: Seq<Option<ExitWindow>>,
    current_slot: u64,
    params: VenueParams,
)
    requires
        params.wf(),
        no_exits(windows),
        market.base_flow > 0,
        market.quote_flow > 0,
        current_slot > bk.last_update_slot,
        reconstruct(bk, market, windows, current_slot, params) is Some,
    ensures
        reconstruct(bk, market, windows, current_slot, params)
            == advance(checkpoint(bk, market), current_slot, 0, 0, params.precision),
        ({
            let acc = reconstruct(bk, market, windows, current_slot, params)->Some_0;
            let p = params.precision;
            &&& acc.base_per_quote == bk.base_per_quote
                + (p * market.base_flow / market.quote_flow as int) * (current_slot - bk.last_update_slot)
            &&& acc.quote_per_base == bk.quote_per_base
                + (p * market.quote_flow / market.base_flow as int) * (current_slot - bk.last_update_slot)
        }),
{
    let w = market.end_slot_interval as int;
    let a = params.array_length as int;
    let p = params.precision;
    let start = checkpoint(bk, market);
    {
        let last = bk.last_update_slot as int;
        let first_step = last / w + 1;
        let n = current_slot as int / w - last / w;
        let first_window = last / a / w;
        lemma_replay_without_exits(start, windows, first_window, a, w, first_step, n as nat, p);
        let s = replay(start, windows, first_window, a, w, first_step, n as nat, p)->Some_0;
        let rb = p * market.base_flow / market.quote_flow as int;
        let rq = p * market.quote_flow / market.base_flow as int;
        assert(rb * (s.slot - last) + rb * (current_slot - s.slot) == rb * (current_slot - last)) by (nonlinear_arith);
        assert(rq * (s.slot - last) + rq * (current_slot - s.slot) == rq * (current_slot - last)) by (nonlinear_arith);
        assert(rb >= 0 && rq >= 0) by (nonlinear_arith)
            requires rb == p * market.base_flow / market.quote_flow as int, rq == p * market.quote_flow / market.base_flow as int,
                p > 0, market.base_flow > 0, market.quote_flow > 0;
        assert(rb * (current_slot - last) >= 0 && rq * (current_slot - last) >= 0) by (nonlinear_arith)
            requires rb >= 0, rq >= 0, current_slot > last;
    }
}

proof fn lemma_accrue_within(acc: u128, num: u128, den: u128, diff: int, precision: u128, bound: int)
    requires
        den > 0,
        diff >= 0,
        fits_u128(precision * num),
        acc + (precision * num / den as int) * diff <= bound,
        bound <= u128::MAX,
    ensures
        accrue(acc, num, den, diff, precision) == Some((acc + (precision * num / den as int) * diff) as u128),
{
    let r = precision * num / den as int;
    assert(r >= 0) by (nonlinear_arith) requires r == precision * num / den as int, precision * num >= 0, den > 0;
    assert(r * diff >= 0) by (nonlinear_arith) requires r >= 0, diff >= 0;
}

proof fn lemma_replay_without_exits_succeeds(
    start: Accrual,
    windows: Seq<Option<ExitWindow>>,
    first_window: int,
    array_length: int,
    interval: int,
    first_step: int,
    n: nat,
    precision: u128,
    current_slot: int,
)
    requires
        no_exits(windows),
        start.base_flow > 0,
        start.quote_flow > 0,
        interval > 0,
        first_step * interval > start.slot,
        n > 0 ==> (first_step + n - 1) * interval <= current_slot,
        current_slot <= u64::MAX,
        fits_u128(precision * start.base_flow),
        fits_u128(precision * start.quote_flow),
        start.base_per_quote + (precision * start.base_flow / start.quote_flow as int) * (current_slot - start.slot) <= u128::MAX,
        start.quote_per_base + (precision * start.quote_flow / start.base_flow as int) * (current_slot - start.slot) <= u128::MAX,
    ensures
        replay(start, windows, first_window, array_length, interval, first_step, n, precision) is Some,
        n == 0 ==> replay(start, windows, first_window, array_length, interval, first_step, n, precision)->Some_0.slot == start.slot,
        n > 0 ==> replay(start, windows, first_window, array_length, interval, first_step, n, precision)->Some_0.slot
            == (first_step + n - 1) * interval,
    decreases n,
{
    if n > 0 {
        let g = first_step + n - 1;
        if n > 1 {
            assert((g - 1) * interval <= g * interval) by (nonlinear_arith) requires interval > 0;
        }
        lemma_replay_without_exits_succeeds(start, windows, first_window, array_length, interval, first_step,
            (n - 1) as nat, precision, current_slot);
        lemma_replay_without_exits(start, windows, first_window, array_length, interval, first_step, (n - 1) as nat, precision);
        let sp = replay(start, windows, first_window, array_length, interval, first_step, (n - 1) as nat, precision)->Some_0;
        let slot = g * interval;
        if n > 1 {
            assert((g - 1) * interval <= g * interval) by (nonlinear_arith) requires interval > 0;
        }
        assert(sp.slot <= slot);
        assert(slot >= 0);
        let k = g / array_length - first_window;
        let i = g % array_length;
        if 0 <= k < windows.len() && windows[k] is Some {
            assert(entry_or_zero(windows[k]->Some_0.base_exits@, i) == 0);
        }
        assert(exit_at(windows, first_window, array_length, g) == (0u128, 0u128));
        let rb = precision * start.base_flow / start.quote_flow as int;
        let rq = precision * start.quote_flow / start.base_flow as int;
        assert(rb >= 0 && rq >= 0) by (nonlinear_arith)
            requires rb == precision * start.base_flow / start.quote_flow as int,
                rq == precision * start.quote_flow / start.base_flow as int,
                precision * start.base_flow >= 0, precision * start.quote_flow >= 0,
                start.base_flow > 0, start.quote_flow > 0;
        assert(rb * (sp.slot - start.slot) + rb * (slot - sp.slot) == rb * (slot - start.slot)) by (nonlinear_arith);
        assert(rq * (sp.slot - start.slot) + rq * (slot - sp.slot) == rq * (slot - start.slot)) by (nonlinear_arith);
        assert(rb * (slot - start.slot) <= rb * (current_slot - start.slot)) by (nonlinear_arith)
            requires rb >= 0, slot <= current_slot;
        assert(rq * (slot - start.slot) <= rq * (current_slot - start.slot)) by (nonlinear_arith)
            requires rq >= 0, slot <= current_slot;
        lemma_accrue_within(sp.base_per_quote, sp.base_flow, sp.quote_flow, slot - sp.slot, precision,
            start.base_per_quote + rb * (current_slot - start.slot));
        lemma_accrue_within(sp.quote_per_base, sp.quote_flow, sp.base_flow, slot - sp.slot, precision,
            start.quote_per_base + rq * (current_slot - start.slot));
    }
}

/// With no recorded exits and both market flows nonzero, replaying the
/// integrals step by step gives the same result as one step from the
/// checkpoint to the current time: each integral grows by the constant
/// flow ratio times the elapsed time.
pub proof fn lemma_reconstruct_without_exits(
    bk: Bookkeeping,
    market: Market,
    windows: Seq<Option<ExitWindow>>,
    current_slot: u64,
    params: VenueParams,
)
    requires
        params.wf(),
        no_exits(windows),
        market.base_flow > 0,
        market.quote_flow > 0,
        market.end_slot_interval > 0,
        current_slot > bk.last_update_slot,
    ensures
        reconstruct(bk, market, windows, current_slot, params)
            == advance(checkpoint(bk, market), current_slot, 0, 0, params.precision),
        reconstruct(bk, market, windows, current_slot, params) is Some ==> ({
            let acc = reconstruct(bk, market, windows, current_slot, params)->Some_0;
            let p = params.precision;
            &&& acc.base_per_quote == bk.base_per_quote
                + (p * market.base_flow / market.quote_flow as int) * (current_slot - bk.last_update_slot)
            &&& acc.quote_per_base == bk.quote_per_base
                + (p * market.quote_flow / market.base_flow as int) * (current_slot - bk.last_update_slot)
        }),
{
    let p = params.precision;
    let start = checkpoint(bk, market);
    if reconstruct(bk, market, windows, current_slot, params) is Some {
        lemma_reconstruct_without_exits_when_some(bk, market, windows, current_slot, params);
    } else if advance(start, current_slot, 0, 0, p) is Some {
        let w = market.end_slot_interval as int;
        let a = params.array_length as int;
        let last = bk.last_update_slot as int;
        let first_step = last / w + 1;
        let n = current_slot as int / w - last / w;
        let first_window = last / a / w;
        let rb = p * market.base_flow / market.quote_flow as int;
        let rq = p * market.quote_flow / market.base_flow as int;
        assert(last as int / w <= current_slot as int / w) by (nonlinear_arith)
            requires last < current_slot, w > 0;
        assert(first_step * w > last) by (nonlinear_arith)
            requires first_step == last / w + 1, w > 0;
        assert((current_slot as int / w) * w <= current_slot) by (nonlinear_arith) requires w > 0;
        assert(n > 0 ==> (first_step + n - 1) * w <= current_slot);
        lemma_replay_without_exits_succeeds(start, windows, first_window, a, w, first_step, n as nat, p, current_slot as int);
        lemma_replay_without_exits(start, windows, first_window, a, w, first_step, n as nat, p);
        let s = replay(start, windows, first_window, a, w, first_step, n as nat, p)->Some_0;
        assert(s.slot <= current_slot);
        assert(rb * (s.slot - last) + rb * (current_slot - s.slot) == rb * (current_slot - last)) by (nonlinear_arith);
        assert(rq * (s.slot - last) + rq * (current_slot - s.slot) == rq * (current_slot - last)) by (nonlinear_arith);
        lemma_accrue_within(s.base_per_quote, s.base_flow, s.quote_flow, current_slot - s.slot, p,
            bk.base_per_quote + rb * (current_slot - last));
        lemma_accrue_within(s.quote_per_base, s.quote_flow, s.base_flow, current_slot - s.slot, p,
            bk.quote_per_base + rq * (current_slot - last));
        assert(reconstruct(bk, market, windows, current_slot, params) is Some);
    }
}

/// On each side, a reconciled position never holds a balance and a debt at once.
pub proof fn lemma_balance_and_debt_exclusive(
    pos: LiquidityPosition,
    bk: Bookkeeping,
    market: Market,
    windows: Seq<Option<ExitWindow>>,
    current_slot: u64,
    params: VenueParams,
)
    requires
        params.wf(),
        reconciled(pos, bk, market, windows, current_slot, params) is Some,
    ensures
        ({
            let b = reconciled(pos, bk, market, windows, current_slot, params)->Some_0;
            &&& b.base_balance * b.base_debt == 0
            &&& b.quote_balance * b.quote_debt == 0
        }),
{
    let b = reconciled(pos, bk, market, windows, current_slot, params)->Some_0;
    assert(b.base_balance == 0 || b.base_debt == 0);
    assert(b.quote_balance == 0 || b.quote_debt == 0);
    assert(b.base_balance * b.base_debt == 0 && b.quote_balance * b.quote_debt == 0) by (nonlinear_arith)
        requires b.base_balance == 0 || b.base_debt == 0, b.quote_balance == 0 || b.quote_debt == 0;
}

/// Reconciling twice from the same checkpoint, journals and time gives the
/// same outcome: the result depends on the inputs alone.
pub proof fn lemma_reconcile_deterministic(
    first: Result<LiquidityPositionBalances, ReconcileError>,
    second: Result<LiquidityPositionBalances, ReconcileError>,
    pos: LiquidityPosition,
    bk: Bookkeeping,
    market: Market,
    windows: Seq<Option<ExitWindow>>,
    current_slot: u64,
    params: VenueParams,
)
    requires
        reconcile_outcome(first, pos, bk, market, windows, current_slot, params),
        reconcile_outcome(second, pos, bk, market, windows, current_slot, params),
    ensures
        first == second,
{
    if first is Ok {
        assert(second is Ok);
        assert(first->Ok_0 == second->Ok_0);
    } else {
        assert(second is Err);
        let (e1, e2) = (first->Err_0, second->Err_0);
        match (e1, e2) {
            (ReconcileError::OutOfRange, ReconcileError::OutOfRange) => {
                assert(e1 == e2);
            },
        }
    }
}

} // verus!
