//! Oracle-driven quoting: the inventory-implied price, the blended target
//! price, the flows that quote it, and the two threshold checks (requote,
//! rebalance). Prices are fixed-point integers in `PRICE_SCALE` units per
//! displayed unit; token amounts are native units with the given decimals.

use vstd::prelude::*;
use crate::bps::{bps_floor_exceeds, bps_ratio_exceeds};
use crate::price::{PriceData, PRICE_SCALE};
use crate::reconcile::fits_u128;
use crate::state::{LiquidityPosition, LiquidityPositionBalances, MarketState};

verus! {

/// A pair of flow rates to quote.
#[derive(Clone, Copy, Debug, PartialEq, Eq, Structural)]
pub struct OptimalQuote {
    pub base_flow: u64,
    pub quote_flow: u64,
}

pub open spec fn pow10(d: nat) -> nat
    decreases d,
{
    if d == 0 { 1 } else { 10 * pow10((d - 1) as nat) }
}

pub proof fn lemma_pow10_grows(i: nat, j: nat)
    requires
        i <= j,
    ensures
        1 <= pow10(i) <= pow10(j),
    decreases j,
{
    if j > 0 {
        if i < j {
            lemma_pow10_grows(i, (j - 1) as nat);
        } else {
            lemma_pow10_grows((i - 1) as nat, (j - 1) as nat);
        }
    }
}

/// `10^d` where it fits in a `u128`.
fn pow10_checked(d: u8) -> (r: Option<u128>)
    ensures
        r == if pow10(d as nat) <= u128::MAX { Some(pow10(d as nat) as u128) } else { None::<u128> },
{
    let mut acc: u128 = 1;
    let mut i: u8 = 0;
    while i < d
        invariant
            i <= d,
            acc == pow10(i as nat),
        decreases d - i,
    {
        match acc.checked_mul(10) {
            Some(v) => {
                acc = v;
            },
            None => {
                proof {
                    lemma_pow10_grows((i + 1) as nat, d as nat);
                }
                return None;
            },
        }
        i = i + 1;
    }
    Some(acc)
}

/// `v` clamped to `[1, hi]`.
pub open spec fn clamp_flow(v: int, hi: int) -> int {
    if v < 1 { 1 } else if v > hi { hi } else { v }
}

/// The quote flow that matches `base_flow` at `price`, floored and clamped to
/// at least 1.
pub open spec fn quote_for_price(base_flow: u64, price: u64, base_decimals: u8, quote_decimals: u8) -> Option<u64> {
    let num = base_flow * price * pow10(quote_decimals as nat);
    let den = pow10(base_decimals as nat) * PRICE_SCALE;
    if base_flow == 0 || price == 0 || !fits_u128(num) || !fits_u128(den) {
        None
    } else {
        Some(clamp_flow(num / den, u64::MAX as int) as u64)
    }
}

/// The base flow that matches `quote_flow` at `price`, floored and clamped to
/// at least 1.
pub open spec fn base_for_price(quote_flow: u64, price: u64, base_decimals: u8, quote_decimals: u8) -> Option<u64> {
    let num = quote_flow * PRICE_SCALE * pow10(base_decimals as nat);
    let den = price * pow10(quote_decimals as nat);
    if quote_flow == 0 || price == 0 || !fits_u128(num) || !fits_u128(den) {
        None
    } else {
        Some(clamp_flow(num / den, u64::MAX as int) as u64)
    }
}

proof fn lemma_product_at_least(a: int, b: int)
    requires
        a >= 1,
        b >= 0,
    ensures
        a * b >= b,
{
    assert(a * b >= b) by (nonlinear_arith) requires a >= 1, b >= 0;
}

/// Quote flow for a base flow at a price; `None` for a zero input or where
/// the exact computation leaves the `u128` range.
pub fn quote_flow_for_price(base_flow: u64, target_quote_price: u64, base_token_decimals: u8, quote_token_decimals: u8) -> (r: Option<u64>)
    ensures
        r == quote_for_price(base_flow, target_quote_price, base_token_decimals, quote_token_decimals),
{
    if base_flow == 0 || target_quote_price == 0 {
        return None;
    }
    proof {
        assert(base_flow * target_quote_price <= u64::MAX * u64::MAX) by (nonlinear_arith);
        assert(base_flow * target_quote_price >= 1) by (nonlinear_arith)
            requires base_flow >= 1, target_quote_price >= 1;
        lemma_product_at_least(base_flow * target_quote_price, pow10(quote_token_decimals as nat) as int);
        lemma_pow10_grows(0, base_token_decimals as nat);
        lemma_product_at_least(PRICE_SCALE as int, pow10(base_token_decimals as nat) as int);
    }
    let bp = (base_flow as u128) * (target_quote_price as u128);
    let num = match pow10_checked(quote_token_decimals) {
        Some(p) => match bp.checked_mul(p) {
            Some(v) => v,
            None => return None,
        },
        None => return None,
    };
    let den = match pow10_checked(base_token_decimals) {
        Some(p) => match p.checked_mul(PRICE_SCALE as u128) {
            Some(v) => v,
            None => return None,
        },
        None => return None,
    };
    let raw = num / den;
    Some(if raw < 1 { 1 } else if raw > u64::MAX as u128 { u64::MAX } else { raw as u64 })
}

/// Base flow for a quote flow at a price; `None` for a zero input or where
/// the exact computation leaves the `u128` range.
pub fn base_flow_for_price(quote_flow: u64, target_quote_price: u64, base_token_decimals: u8, quote_token_decimals: u8) -> (r: Option<u64>)
    ensures
        r == base_for_price(quote_flow, target_quote_price, base_token_decimals, quote_token_decimals),
{
    if quote_flow == 0 || target_quote_price == 0 {
        return None;
    }
    proof {
        assert(quote_flow * PRICE_SCALE <= u64::MAX * u64::MAX) by (nonlinear_arith);
        assert(quote_flow * PRICE_SCALE >= 1) by (nonlinear_arith) requires quote_flow >= 1;
        lemma_product_at_least(quote_flow * PRICE_SCALE, pow10(base_token_decimals as nat) as int);
        lemma_product_at_least(target_quote_price as int, pow10(quote_token_decimals as nat) as int);
        lemma_pow10_grows(0, quote_token_decimals as nat);
        assert(target_quote_price * pow10(quote_token_decimals as nat) >= 1) by (nonlinear_arith)
            requires target_quote_price >= 1, pow10(quote_token_decimals as nat) >= 1;
    }
    let qs = (quote_flow as u128) * (PRICE_SCALE as u128);
    let num = match pow10_checked(base_token_decimals) {
        Some(p) => match qs.checked_mul(p) {
            Some(v) => v,
            None => return None,
        },
        None => return None,
    };
    let den = match pow10_checked(quote_token_decimals) {
        Some(p) => match (target_quote_price as u128).checked_mul(p) {
            Some(v) => v,
            None => return None,
        },
        None => return None,
    };
    let raw = num / den;
    Some(if raw < 1 { 1 } else if raw > u64::MAX as u128 { u64::MAX } else { raw as u64 })
}

/// The inventory-implied price: displayed quote balance over displayed base
/// balance, in `PRICE_SCALE` units and floored.
pub open spec fn inventory_price(balances: LiquidityPositionBalances, base_decimals: u8, quote_decimals: u8) -> Option<u64> {
    let num = balances.quote_balance * PRICE_SCALE * pow10(base_decimals as nat);
    let den = balances.base_balance * pow10(quote_decimals as nat);
    if balances.base_balance == 0 || balances.quote_balance == 0 || !fits_u128(num) || !fits_u128(den) || num / den > u64::MAX {
        None
    } else {
        Some((num / den) as u64)
    }
}

/// The price implied by the position's inventory; `None` where either side
/// is empty or the price leaves the representable range.
pub fn liquidity_position_price(balances: &LiquidityPositionBalances, base_token_decimals: u8, quote_token_decimals: u8) -> (r: Option<u64>)
    ensures
        r == inventory_price(*balances, base_token_decimals, quote_token_decimals),
{
    if balances.base_balance == 0 || balances.quote_balance == 0 {
        return None;
    }
    proof {
        assert(balances.quote_balance * PRICE_SCALE <= u64::MAX * u64::MAX) by (nonlinear_arith);
        assert(balances.quote_balance * PRICE_SCALE >= 1) by (nonlinear_arith) requires balances.quote_balance >= 1;
        lemma_product_at_least(balances.quote_balance * PRICE_SCALE, pow10(base_token_decimals as nat) as int);
        lemma_product_at_least(balances.base_balance as int, pow10(quote_token_decimals as nat) as int);
        lemma_pow10_grows(0, quote_token_decimals as nat);
        assert(balances.base_balance * pow10(quote_token_decimals as nat) >= 1) by (nonlinear_arith)
            requires balances.base_balance >= 1, pow10(quote_token_decimals as nat) >= 1;
    }
    let qs = (balances.quote_balance as u128) * (PRICE_SCALE as u128);
    let num = match pow10_checked(base_token_decimals) {
        Some(p) => match qs.checked_mul(p) {
            Some(v) => v,
            None => return None,
        },
        None => return None,
    };
    let den = match pow10_checked(quote_token_decimals) {
        Some(p) => match (balances.base_balance as u128).checked_mul(p) {
            Some(v) => v,
            None => return None,
        },
        None => return None,
    };
    let price = num / den;
    if price > u64::MAX as u128 {
        None
    } else {
        Some(price as u64)
    }
}

/// The price quoted by the rest of the market: the aggregate flows less the
/// position's own (scaled by `flow_precision`), as displayed quote per
/// displayed base in `PRICE_SCALE` units, floored. `None` where the rest of
/// the market has no flow on a side or a value leaves the representable range.
pub open spec fn market_price_without(
    position: LiquidityPosition,
    market_state: MarketState,
    flow_precision: u128,
    base_decimals: u8,
    quote_decimals: u8,
) -> Option<u64> {
    let own_base = position.base_flow_u64 * flow_precision;
    let own_quote = position.quote_flow_u64 * flow_precision;
    let rest_base = market_state.market.base_flow - own_base;
    let rest_quote = market_state.market.quote_flow - own_quote;
    let num = rest_quote * PRICE_SCALE * pow10(base_decimals as nat);
    let den = rest_base * pow10(quote_decimals as nat);
    if !fits_u128(own_base) || !fits_u128(own_quote) || rest_base <= 0 || rest_quote <= 0
        || !fits_u128(num) || !fits_u128(den) || num / den > u64::MAX {
        None
    } else {
        Some((num / den) as u64)
    }
}

/// The market's price without the position's own flows.
pub fn market_price_excluding_position(
    position: &LiquidityPosition,
    market_state: &MarketState,
    flow_precision: u128,
    base_token_decimals: u8,
    quote_token_decimals: u8,
) -> (r: Option<u64>)
    ensures
        r == market_price_without(*position, *market_state, flow_precision, base_token_decimals, quote_token_decimals),
{
    let own_base = match (position.base_flow_u64 as u128).checked_mul(flow_precision) {
        Some(v) => v,
        None => return None,
    };
    let own_quote = match (position.quote_flow_u64 as u128).checked_mul(flow_precision) {
        Some(v) => v,
        None => return None,
    };
    if market_state.market.base_flow <= own_base || market_state.market.quote_flow <= own_quote {
        return None;
    }
    let rest_base = market_state.market.base_flow - own_base;
    let rest_quote = market_state.market.quote_flow - own_quote;
    proof {
        lemma_pow10_grows(0, base_token_decimals as nat);
        lemma_pow10_grows(0, quote_token_decimals as nat);
        assert(rest_quote * PRICE_SCALE >= 1) by (nonlinear_arith) requires rest_quote >= 1;
        lemma_product_at_least(rest_quote * PRICE_SCALE, pow10(base_token_decimals as nat) as int);
        lemma_product_at_least(rest_base as int, pow10(quote_token_decimals as nat) as int);
        assert(rest_base * pow10(quote_token_decimals as nat) >= 1) by (nonlinear_arith)
            requires rest_base >= 1, pow10(quote_token_decimals as nat) >= 1;
    }
    let num = match rest_quote.checked_mul(PRICE_SCALE as u128) {
        Some(v) => match pow10_checked(base_token_decimals) {
            Some(p) => match v.checked_mul(p) {
                Some(n) => n,
                None => return None,
            },
            None => return None,
        },
        None => {
            proof {
                let pw = pow10(base_token_decimals as nat) as int;
                assert(rest_quote * PRICE_SCALE * pw >= rest_quote * PRICE_SCALE) by (nonlinear_arith)
                    requires pw >= 1, rest_quote * PRICE_SCALE >= 1;
            }
            return None;
        },
    };
    let den = match pow10_checked(quote_token_decimals) {
        Some(p) => match rest_base.checked_mul(p) {
            Some(v) => v,
            None => return None,
        },
        None => return None,
    };
    let price = num / den;
    if price > u64::MAX as u128 {
        None
    } else {
        Some(price as u64)
    }
}

/// `(oracle + weight * inventory) / (1 + weight)` with `weight` in
/// `PRICE_SCALE` units, floored.
pub open spec fn blended(oracle: u64, inventory: u64, weight: u64) -> Option<u64> {
    let num = oracle * PRICE_SCALE + weight * inventory;
    let den = PRICE_SCALE + weight;
    if !fits_u128(num) || num / den > u64::MAX {
        None
    } else {
        Some((num / den) as u64)
    }
}

/// Blends the oracle price with the inventory price.
pub fn blend_price(oracle_price: u64, inventory_price: u64, weight: u64) -> (r: Option<u64>)
    ensures
        r == blended(oracle_price, inventory_price, weight),
{
    proof {
        assert(oracle_price * PRICE_SCALE <= u64::MAX * u64::MAX) by (nonlinear_arith);
        assert(weight * inventory_price <= u64::MAX * u64::MAX) by (nonlinear_arith);
    }
    let a = (oracle_price as u128) * (PRICE_SCALE as u128);
    let b = (weight as u128) * (inventory_price as u128);
    let num = match a.checked_add(b) {
        Some(v) => v,
        None => return None,
    };
    let t = num / ((PRICE_SCALE as u128) + (weight as u128));
    if t > u64::MAX as u128 {
        None
    } else {
        Some(t as u64)
    }
}

/// Flows that quote `target` within the inventory: at or above the
/// inventory price the whole quote balance is quoted and the base flow solved
/// from the price; below it the whole base balance is quoted and the quote
/// flow solved. A solved flow is clamped to `[1, balance]`.
pub open spec fn target_flows(
    balances: LiquidityPositionBalances,
    target: u64,
    inventory: u64,
    base_decimals: u8,
    quote_decimals: u8,
) -> Option<OptimalQuote> {
    if balances.base_balance == 0 || balances.quote_balance == 0 || target == 0 || inventory == 0 {
        None
    } else if target >= inventory {
        match base_for_price(balances.quote_balance, target, base_decimals, quote_decimals) {
            Some(b) => Some(OptimalQuote {
                base_flow: clamp_flow(b as int, balances.base_balance as int) as u64,
                quote_flow: balances.quote_balance,
            }),
            None => None,
        }
    } else {
        match quote_for_price(balances.base_balance, target, base_decimals, quote_decimals) {
            Some(q) => Some(OptimalQuote {
                base_flow: balances.base_balance,
                quote_flow: clamp_flow(q as int, balances.quote_balance as int) as u64,
            }),
            None => None,
        }
    }
}

fn clamp_to(v: u64, hi: u64) -> (r: u64)
    requires
        hi >= 1,
    ensures
        r == clamp_flow(v as int, hi as int),
{
    if v < 1 { 1 } else if v > hi { hi } else { v }
}

/// The inventory-constrained flows that quote `target_quote_price`.
pub fn compute_target_flows(
    balances: &LiquidityPositionBalances,
    target_quote_price: u64,
    inventory_quote_price: u64,
    base_token_decimals: u8,
    quote_token_decimals: u8,
) -> (r: Option<OptimalQuote>)
    ensures
        r == target_flows(*balances, target_quote_price, inventory_quote_price, base_token_decimals, quote_token_decimals),
{
    if balances.base_balance == 0 || balances.quote_balance == 0 || target_quote_price == 0 || inventory_quote_price == 0 {
        return None;
    }
    if target_quote_price >= inventory_quote_price {
        match base_flow_for_price(balances.quote_balance, target_quote_price, base_token_decimals, quote_token_decimals) {
            Some(b) => Some(OptimalQuote { base_flow: clamp_to(b, balances.base_balance), quote_flow: balances.quote_balance }),
            None => None,
        }
    } else {
        match quote_flow_for_price(balances.base_balance, target_quote_price, base_token_decimals, quote_token_decimals) {
            Some(q) => Some(OptimalQuote { base_flow: balances.base_balance, quote_flow: clamp_to(q, balances.quote_balance) }),
            None => None,
        }
    }
}

/// The position's current flows, each at least 1.
pub open spec fn current_quote(position: LiquidityPosition) -> OptimalQuote {
    OptimalQuote {
        base_flow: if position.base_flow_u64 < 1 { 1 } else { position.base_flow_u64 },
        quote_flow: if position.quote_flow_u64 < 1 { 1 } else { position.quote_flow_u64 },
    }
}

/// The quote to aim for: the inventory-constrained flows at the blend of the
/// oracle and inventory prices, or the current quote where the oracle price
/// is zero or any step has no answer.
pub open spec fn optimal_quote(
    price: PriceData,
    position: LiquidityPosition,
    balances: LiquidityPositionBalances,
    base_decimals: u8,
    quote_decimals: u8,
    weight: u64,
) -> OptimalQuote {
    if price.price == 0 {
        current_quote(position)
    } else {
        match inventory_price(balances, base_decimals, quote_decimals) {
            None => current_quote(position),
            Some(inv) => match blended(price.price, inv, weight) {
                None => current_quote(position),
                Some(t) => match target_flows(balances, t, inv, base_decimals, quote_decimals) {
                    None => current_quote(position),
                    Some(q) => q,
                },
            },
        }
    }
}

/// Computes the quote to aim for from the oracle price and the position's
/// inventory. `weight` is the inventory price's share of the blend, in
/// `PRICE_SCALE` units.
pub fn calculate_optimal_quote(
    price: &PriceData,
    position: &LiquidityPosition,
    balances: &LiquidityPositionBalances,
    base_token_decimals: u8,
    quote_token_decimals: u8,
    weight: u64,
) -> (r: OptimalQuote)
    ensures
        r == optimal_quote(*price, *position, *balances, base_token_decimals, quote_token_decimals, weight),
{
    let fallback = OptimalQuote {
        base_flow: if position.base_flow_u64 < 1 { 1 } else { position.base_flow_u64 },
        quote_flow: if position.quote_flow_u64 < 1 { 1 } else { position.quote_flow_u64 },
    };
    if price.price == 0 {
        return fallback;
    }
    let inventory = match liquidity_position_price(balances, base_token_decimals, quote_token_decimals) {
        Some(p) => p,
        None => return fallback,
    };
    let target = match blend_price(price.price, inventory, weight) {
        Some(t) => t,
        None => return fallback,
    };
    match compute_target_flows(balances, target, inventory, base_token_decimals, quote_token_decimals) {
        Some(q) => q,
        None => fallback,
    }
}

/// Whether the current ratio `current_base : current_quote` is further than
/// `threshold` basis points from `optimal_base : optimal_quote`, measured on
/// the cross products as `(larger - smaller) * 10000 / smaller`, floored.
pub open spec fn quote_update_needed(
    current_base: int,
    current_quote: int,
    optimal_base: int,
    optimal_quote: int,
    threshold: int,
) -> bool {
    if current_base == 0 || current_quote == 0 {
        optimal_base > 0 && optimal_quote > 0
    } else if optimal_base == 0 || optimal_quote == 0 {
        false
    } else {
        let c = current_base * optimal_quote;
        let o = optimal_base * current_quote;
        let larger = if c > o { c } else { o };
        let smaller = if c > o { o } else { c };
        10000 * (larger - smaller) / smaller > threshold
    }
}

/// Whether the current quote deviates from the optimal one by more than
/// `threshold_bps` basis points.
pub fn should_update_quote(
    current_base_flow: u64,
    current_quote_flow: u64,
    optimal: &OptimalQuote,
    threshold_bps: u64,
) -> (r: bool)
    ensures
        r == quote_update_needed(current_base_flow as int, current_quote_flow as int,
            optimal.base_flow as int, optimal.quote_flow as int, threshold_bps as int),
{
    if current_base_flow == 0 || current_quote_flow == 0 {
        return optimal.base_flow > 0 && optimal.quote_flow > 0;
    }
    if optimal.base_flow == 0 || optimal.quote_flow == 0 {
        return false;
    }
    proof {
        assert(current_base_flow * optimal.quote_flow <= u64::MAX * u64::MAX) by (nonlinear_arith);
        assert(optimal.base_flow * current_quote_flow <= u64::MAX * u64::MAX) by (nonlinear_arith);
        assert(optimal.base_flow * current_quote_flow >= 1) by (nonlinear_arith)
            requires optimal.base_flow >= 1, current_quote_flow >= 1;
        assert(current_base_flow * optimal.quote_flow >= 1) by (nonlinear_arith)
            requires current_base_flow >= 1, optimal.quote_flow >= 1;
    }
    let current_ratio = (current_base_flow as u128) * (optimal.quote_flow as u128);
    let optimal_ratio = (optimal.base_flow as u128) * (current_quote_flow as u128);
    let (larger, smaller) = if current_ratio > optimal_ratio {
        (current_ratio, optimal_ratio)
    } else {
        (optimal_ratio, current_ratio)
    };
    bps_floor_exceeds(larger - smaller, smaller, threshold_bps)
}

/// Scaling both current flows by the same positive factor does not change
/// whether a requote is needed: the check depends on the ratio alone.
pub proof fn lemma_should_update_scale_invariant(
    current_base: int,
    current_quote: int,
    optimal_base: int,
    optimal_quote: int,
    threshold: int,
    k: int,
)
    requires
        k > 0,
        current_base >= 0,
        current_quote >= 0,
        optimal_base >= 0,
        optimal_quote >= 0,
    ensures
        quote_update_needed(k * current_base, k * current_quote, optimal_base, optimal_quote, threshold)
            == quote_update_needed(current_base, current_quote, optimal_base, optimal_quote, threshold),
{
    assert(k * current_base == 0 <==> current_base == 0) by (nonlinear_arith) requires k > 0;
    assert(k * current_quote == 0 <==> current_quote == 0) by (nonlinear_arith) requires k > 0;
    if current_base != 0 && current_quote != 0 && optimal_base != 0 && optimal_quote != 0 {
        let c = current_base * optimal_quote;
        let o = optimal_base * current_quote;
        let kc = (k * current_base) * optimal_quote;
        let ko = optimal_base * (k * current_quote);
        assert(kc == k * c && ko == k * o) by (nonlinear_arith)
            requires c == current_base * optimal_quote, o == optimal_base * current_quote,
                kc == (k * current_base) * optimal_quote, ko == optimal_base * (k * current_quote);
        assert(c > 0 && o > 0) by (nonlinear_arith)
            requires c == current_base * optimal_quote, o == optimal_base * current_quote,
                current_base > 0, optimal_quote > 0, optimal_base > 0, current_quote > 0;
        assert(kc > ko <==> c > o) by (nonlinear_arith) requires kc == k * c, ko == k * o, k > 0;
        let larger = if c > o { c } else { o };
        let smaller = if c > o { o } else { c };
        let x = 10000 * (larger - smaller);
        let q = x / smaller;
        let m = x % smaller;
        assert(x == q * smaller + m && 0 <= m < smaller) by (nonlinear_arith)
            requires q == x / smaller, m == x % smaller, smaller > 0;
        assert(10000 * (k * larger - k * smaller) == q * (k * smaller) + k * m) by (nonlinear_arith)
            requires x == q * smaller + m, x == 10000 * (larger - smaller);
        assert(0 <= k * m < k * smaller) by (nonlinear_arith) requires 0 <= m < smaller, k > 0;
        vstd::arithmetic::div_mod::lemma_fundamental_div_mod_converse(
            10000 * (k * larger - k * smaller), k * smaller, q, k * m);
    }
}

/// Whether the inventory price is further than `threshold` basis points from
/// the oracle price, exactly; an empty side, or an inventory price too large
/// to compare, always needs a rebalance; a zero oracle price never does.
pub open spec fn rebalance_needed(
    price: u64,
    balances: LiquidityPositionBalances,
    base_decimals: u8,
    quote_decimals: u8,
    threshold: u64,
) -> bool {
    let n = balances.quote_balance * PRICE_SCALE * pow10(base_decimals as nat);
    let m = price * balances.base_balance * pow10(quote_decimals as nat);
    if price == 0 {
        false
    } else if balances.base_balance == 0 || balances.quote_balance == 0 {
        true
    } else if !fits_u128(n) || !fits_u128(m) {
        true
    } else {
        let diff = if n > m { n - m } else { m - n };
        10000 * diff > threshold * m
    }
}

/// Whether the inventory should be rebalanced before requoting.
pub fn needs_rebalance(
    price: &PriceData,
    balances: &LiquidityPositionBalances,
    base_token_decimals: u8,
    quote_token_decimals: u8,
    threshold_bps: u64,
) -> (r: bool)
    ensures
        r == rebalance_needed(price.price, *balances, base_token_decimals, quote_token_decimals, threshold_bps),
{
    if price.price == 0 {
        return false;
    }
    if balances.base_balance == 0 || balances.quote_balance == 0 {
        return true;
    }
    proof {
        assert(balances.quote_balance * PRICE_SCALE <= u64::MAX * u64::MAX) by (nonlinear_arith);
        assert(balances.quote_balance * PRICE_SCALE >= 1) by (nonlinear_arith) requires balances.quote_balance >= 1;
        lemma_product_at_least(balances.quote_balance * PRICE_SCALE, pow10(base_token_decimals as nat) as int);
        assert(price.price * balances.base_balance <= u64::MAX * u64::MAX) by (nonlinear_arith);
        assert(price.price * balances.base_balance >= 1) by (nonlinear_arith)
            requires price.price >= 1, balances.base_balance >= 1;
        lemma_product_at_least(price.price * balances.base_balance, pow10(quote_token_decimals as nat) as int);
        lemma_pow10_grows(0, quote_token_decimals as nat);
        assert(price.price * balances.base_balance * pow10(quote_token_decimals as nat) >= 1) by (nonlinear_arith)
            requires price.price * balances.base_balance >= 1, pow10(quote_token_decimals as nat) >= 1;
    }
    let qs = (balances.quote_balance as u128) * (PRICE_SCALE as u128);
    let n = match pow10_checked(base_token_decimals) {
        Some(p) => match qs.checked_mul(p) {
            Some(v) => v,
            None => return true,
        },
        None => return true,
    };
    let pb = (price.price as u128) * (balances.base_balance as u128);
    let m = match pow10_checked(quote_token_decimals) {
        Some(p) => match pb.checked_mul(p) {
            Some(v) => v,
            None => return true,
        },
        None => return true,
    };
    let diff = if n > m { n - m } else { m - n };
    bps_ratio_exceeds(diff, m, threshold_bps)
}

} // verus!
