//! Exact basis-point arithmetic on wide integers.

use vstd::prelude::*;
use vstd::arithmetic::div_mod::{lemma_fundamental_div_mod, lemma_fundamental_div_mod_converse};

verus! {

/// `10000 * x / y`, floored, capped at `cap + 1`, and whether the division
/// leaves a remainder (meaningful where the quotient does not pass `cap`).
pub fn bps_quotient_capped(x: u128, y: u128, cap: u64) -> (r: (u128, bool))
    requires
        y > 0,
    ensures
        r.0 == if 10000 * x / y as int <= cap { 10000 * x / y as int } else { cap + 1 },
        10000 * x / y as int <= cap ==> r.1 == (10000 * x % y as int != 0),
{
    let q = x / y;
    let m = x % y;
    proof {
        lemma_fundamental_div_mod(x as int, y as int);
        assert(x == q * y + m) by (nonlinear_arith) requires x == y * q + m;
    }
    if q > cap as u128 {
        proof {
            let f = 10000 * m / y as int;
            let rem = 10000 * m % y as int;
            assert(0 <= m) by (nonlinear_arith) requires m == x % y, y > 0;
            assert(10000 * m == f * y + rem && 0 <= rem < y) by (nonlinear_arith)
                requires f == 10000 * m / y as int, rem == 10000 * m % y as int, y > 0;
            assert(10000 * x == (10000 * q + f) * y + rem) by (nonlinear_arith)
                requires x == q * y + m, 10000 * m == f * y + rem;
            lemma_fundamental_div_mod_converse(10000 * x, y as int, 10000 * q + f, rem);
            assert(f >= 0) by (nonlinear_arith) requires f == 10000 * m / y as int, m >= 0, y > 0;
        }
        return ((cap as u128) + 1, true);
    }
    // 10000 * m = f * y + rem, built one addition of m at a time.
    let mut f: u128 = 0;
    let mut rem: u128 = 0;
    let mut i: u128 = 0;
    while i < 10000
        invariant
            y > 0,
            m < y,
            i <= 10000,
            f <= i,
            rem < y,
            f * y + rem == i * m,
        decreases 10000 - i,
    {
        if rem >= y - m {
            proof {
                assert((f + 1) * y + (rem - (y - m)) == (i + 1) * m) by (nonlinear_arith)
                    requires f * y + rem == i * m;
            }
            rem = rem - (y - m);
            f = f + 1;
        } else {
            proof {
                assert(f * y + (rem + m) == (i + 1) * m) by (nonlinear_arith)
                    requires f * y + rem == i * m;
            }
            rem = rem + m;
        }
        i = i + 1;
    }
    proof {
        assert(10000 * x == (10000 * q + f) * y + rem) by (nonlinear_arith)
            requires x == q * y + m, f * y + rem == 10000 * m;
        lemma_fundamental_div_mod_converse(10000 * x, y as int, 10000 * q + f as int, rem as int);
    }
    let total = 10000 * q + f;
    if total > cap as u128 {
        ((cap as u128) + 1, rem != 0)
    } else {
        (total, rem != 0)
    }
}

/// Whether `10000 * x / y`, floored, is above `threshold`.
pub fn bps_floor_exceeds(x: u128, y: u128, threshold: u64) -> (r: bool)
    requires
        y > 0,
    ensures
        r == (10000 * x / y as int > threshold),
{
    let (q, _) = bps_quotient_capped(x, y, threshold);
    q > threshold as u128
}

/// Whether `x / y` is above `threshold / 10000`, exactly.
pub fn bps_ratio_exceeds(x: u128, y: u128, threshold: u64) -> (r: bool)
    requires
        y > 0,
    ensures
        r == (10000 * x > threshold * y),
{
    let (q, has_rem) = bps_quotient_capped(x, y, threshold);
    proof {
        let fl = 10000 * x / y as int;
        let md = 10000 * x % y as int;
        assert(10000 * x == fl * y + md && 0 <= md < y) by (nonlinear_arith)
            requires fl == 10000 * x / y as int, md == 10000 * x % y as int, y > 0;
        if fl > threshold {
            assert(10000 * x > threshold * y) by (nonlinear_arith)
                requires 10000 * x == fl * y + md, md >= 0, fl >= threshold + 1, y > 0;
        } else if fl == threshold {
            assert(10000 * x == threshold * y + md);
        } else {
            assert(10000 * x < threshold * y) by (nonlinear_arith)
                requires 10000 * x == fl * y + md, md < y, fl + 1 <= threshold, y > 0;
        }
    }
    q > threshold as u128 || (q == threshold as u128 && has_rem)
}

} // verus!
