//! Rate, interest, vesting and collateral formulas. Each formula is stated
//! over mathematical integers; the executable version computes it with
//! checked arithmetic and fails with `Overflow` exactly when a product that
//! the formula names does not fit in an `i128`.
use vstd::prelude::*;
use crate::error::TokenError;
use crate::types::VestingSchedule;

verus! {

/// One basis point is a ten-thousandth.
pub const BASIS_POINTS: i128 = 10000;

/// Ledger ticks in a year at one tick per five seconds.
pub const LEDGERS_PER_YEAR: i128 = 6307200;

/// `BASIS_POINTS * LEDGERS_PER_YEAR`: the divisor of annual-rate interest.
pub const INTEREST_DIVISOR: i128 = BASIS_POINTS * LEDGERS_PER_YEAR;

/// Below this health factor a position can be liquidated.
pub const HEALTHY_FACTOR: i128 = 100;

pub open spec fn fits(x: int) -> bool {
    i128::MIN <= x <= i128::MAX
}

/// Integer division that truncates toward zero, as Rust's `/` does.
pub open spec fn tdiv(x: int, d: int) -> int {
    if x == 0 {
        0
    } else if x > 0 && d > 0 {
        x / d
    } else if x < 0 && d < 0 {
        (x * -1) / (d * -1)
    } else if x < 0 {
        ((x * -1) / d) * -1
    } else {
        (x / (d * -1)) * -1
    }
}

/// `a * rate * elapsed / divisor`, truncated toward zero.
pub open spec fn rate_product(a: int, rate: int, elapsed: int, divisor: int) -> int {
    tdiv(a * rate * elapsed, divisor)
}

/// Simple interest on `principal` at an annual `rate` (basis points) over
/// `elapsed` ticks.
pub open spec fn interest(principal: int, rate: int, elapsed: int) -> int {
    rate_product(principal, rate, elapsed, INTEREST_DIVISOR as int)
}

/// Staking reward on `amount` for a growth `index_delta` of the reward
/// index: `amount * index_delta / 10000`. At a constant rate the index
/// grows by `rate * elapsed`.
pub open spec fn reward(amount: int, index_delta: int) -> int {
    tdiv(amount * index_delta, BASIS_POINTS as int)
}

/// The part of a grant that has vested by `now`, before subtracting claims.
pub open spec fn vested(s: VestingSchedule, now: int) -> int {
    if now < s.start_ledger || (s.cliff_ledger > 0 && now < s.cliff_ledger) {
        0
    } else if now >= s.end_ledger {
        s.total_amount as int
    } else {
        s.total_amount * (now - s.start_ledger) / (s.end_ledger - s.start_ledger)
    }
}

/// What the beneficiary may claim at `now`: what has vested beyond what was
/// claimed, never negative.
pub open spec fn claimable(s: VestingSchedule, now: int) -> int {
    if vested(s, now) <= s.claimed_amount {
        0
    } else {
        vested(s, now) - s.claimed_amount
    }
}

/// Whether computing the linear part of `vested` overflows.
pub open spec fn vesting_overflows(s: VestingSchedule, now: int) -> bool {
    &&& s.start_ledger <= now < s.end_ledger
    &&& !(s.cliff_ledger > 0 && now < s.cliff_ledger)
    &&& !fits(s.total_amount * (now - s.start_ledger))
}

/// Utilisation in basis points, `borrowed * 10000 / supplied`, clamped to
/// the range of a `u32`; zero when nothing (or a non-positive total) is
/// supplied.
pub open spec fn utilization(borrowed: int, supplied: int) -> int {
    if supplied <= 0 {
        0
    } else {
        let q = tdiv(borrowed * 10000, supplied);
        if q < 0 {
            0
        } else if q > u32::MAX {
            u32::MAX as int
        } else {
            q
        }
    }
}

/// Health factor of a position, `collateral * threshold / (debt * 100)`;
/// the maximum value when there is no debt. The health query and the
/// liquidation test both use this scale, so a position is liquidatable
/// exactly when the query reports a factor below `HEALTHY_FACTOR`.
pub open spec fn health_factor(collateral: int, threshold: int, debt: int) -> int {
    if debt == 0 {
        i128::MAX as int
    } else {
        tdiv(collateral * threshold, debt * 100)
    }
}

pub open spec fn health_overflows(collateral: int, threshold: int, debt: int) -> bool {
    debt != 0 && (!fits(collateral * threshold) || !fits(debt * 100))
}

/// Jump-rate borrow rate for a utilisation in basis points: linear up to the
/// 80% kink, steep above it.
pub open spec fn dynamic_borrow_rate(u: int) -> int {
    if u <= 8000 {
        200 + u * 500 / 10000
    } else {
        200 + 8000 * 500 / 10000 + (u - 8000) * 10000 / 10000
    }
}

/// Supply rate: the borrow rate scaled by utilisation and by the share not
/// kept as reserves.
pub open spec fn dynamic_supply_rate(borrow_rate: int, u: int, reserve_factor: int) -> int {
    (borrow_rate * u / 10000) * (10000 - reserve_factor) / 10000
}

/// Risk score of the market from its utilisation.
pub open spec fn risk_score(u: int) -> int {
    if u > 9000 {
        100
    } else if u > 8000 {
        75
    } else if u > 6000 {
        50
    } else {
        25
    }
}

pub proof fn lemma_tdiv_bounded(x: int, d: int)
    requires
        d > 0,
    ensures
        x >= 0 ==> 0 <= tdiv(x, d) <= x,
        x < 0 ==> x <= tdiv(x, d) <= 0,
{
    if x > 0 {
        assert(x / d <= x) by (nonlinear_arith)
            requires
                x > 0,
                d > 0,
        ;
        assert(x / d >= 0) by (nonlinear_arith)
            requires
                x > 0,
                d > 0,
        ;
    } else if x < 0 {
        let y = x * -1;
        assert(y / d <= y) by (nonlinear_arith)
            requires
                y > 0,
                d > 0,
        ;
        assert(y / d >= 0) by (nonlinear_arith)
            requires
                y > 0,
                d > 0,
        ;
    }
}

proof fn lemma_product_grows(a: int, r: int, e: int)
    requires
        r >= 1,
        e >= 1,
    ensures
        a >= 0 ==> 0 <= a * r <= a * r * e,
        a < 0 ==> a * r * e <= a * r < 0,
{
    assert(a >= 0 ==> 0 <= a * r <= a * r * e) by (nonlinear_arith)
        requires
            r >= 1,
            e >= 1,
    ;
    assert(a < 0 ==> a * r * e <= a * r < 0) by (nonlinear_arith)
        requires
            r >= 1,
            e >= 1,
    ;
}

/// A rate product of non-negative factors is non-negative and at most the
/// undivided product.
pub proof fn lemma_rate_product_nonneg(a: int, rate: int, elapsed: int, divisor: int)
    requires
        a >= 0,
        rate >= 0,
        elapsed >= 0,
        divisor > 0,
    ensures
        0 <= rate_product(a, rate, elapsed, divisor) <= a * rate * elapsed,
{
    assert(a * rate * elapsed >= 0) by (nonlinear_arith)
        requires
            a >= 0,
            rate >= 0,
            elapsed >= 0,
    ;
    lemma_tdiv_bounded(a * rate * elapsed, divisor);
}

/// Truncating division of a value by a positive divisor.
pub fn div_trunc(x: i128, d: i128) -> (r: i128)
    requires
        d > 0,
    ensures
        r == tdiv(x as int, d as int),
{
    proof {
        lemma_tdiv_bounded(x as int, d as int);
    }
    match x.checked_div(d) {
        Some(q) => q,
        None => 0,
    }
}

/// Computes `a * rate * elapsed / divisor`, truncated toward zero.
pub fn checked_rate_product(a: i128, rate: u32, elapsed: u32, divisor: i128) -> (r: Result<
    i128,
    TokenError,
>)
    requires
        divisor > 0,
    ensures
        r == (if fits(a * rate * elapsed) {
            Ok::<i128, TokenError>(rate_product(a as int, rate as int, elapsed as int, divisor as int) as i128)
        } else {
            Err::<i128, TokenError>(TokenError::Overflow)
        }),
{
    if rate == 0 || elapsed == 0 {
        assert(a * rate * elapsed == 0) by (nonlinear_arith)
            requires
                rate == 0 || elapsed == 0,
        ;
        return Ok(0);
    }
    proof {
        lemma_product_grows(a as int, rate as int, elapsed as int);
    }
    match a.checked_mul(rate as i128) {
        None => Err(TokenError::Overflow),
        Some(p) => match p.checked_mul(elapsed as i128) {
            None => Err(TokenError::Overflow),
            Some(q) => {
                proof {
                    lemma_tdiv_bounded(q as int, divisor as int);
                }
                Ok(div_trunc(q, divisor))
            },
        },
    }
}

/// Simple interest on `principal` over `elapsed` ticks at `rate`.
pub fn checked_interest(principal: i128, rate: u32, elapsed: u32) -> (r: Result<i128, TokenError>)
    ensures
        r == (if fits(principal * rate * elapsed) {
            Ok::<i128, TokenError>(interest(principal as int, rate as int, elapsed as int) as i128)
        } else {
            Err::<i128, TokenError>(TokenError::Overflow)
        }),
{
    checked_rate_product(principal, rate, elapsed, INTEREST_DIVISOR)
}

/// Staking reward on `amount` for a growth `index_delta` of the reward
/// index.
pub fn checked_reward(amount: i128, index_delta: u64) -> (r: Result<i128, TokenError>)
    ensures
        r == (if fits(amount * index_delta) {
            Ok::<i128, TokenError>(reward(amount as int, index_delta as int) as i128)
        } else {
            Err::<i128, TokenError>(TokenError::Overflow)
        }),
{
    match amount.checked_mul(index_delta as i128) {
        None => Err(TokenError::Overflow),
        Some(p) => {
            proof {
                lemma_tdiv_bounded(p as int, BASIS_POINTS as int);
            }
            Ok(div_trunc(p, BASIS_POINTS))
        },
    }
}

/// The health factor of a position with non-negative collateral and debt.
pub fn checked_health_factor(collateral: i128, threshold: u32, debt: i128) -> (r: Result<
    i128,
    TokenError,
>)
    requires
        collateral >= 0,
        debt >= 0,
    ensures
        r == (if health_overflows(collateral as int, threshold as int, debt as int) {
            Err::<i128, TokenError>(TokenError::Overflow)
        } else {
            Ok::<i128, TokenError>(health_factor(collateral as int, threshold as int, debt as int) as i128)
        }),
{
    if debt == 0 {
        return Ok(i128::MAX);
    }
    let num = match collateral.checked_mul(threshold as i128) {
        None => return Err(TokenError::Overflow),
        Some(v) => v,
    };
    let den = match debt.checked_mul(100) {
        None => return Err(TokenError::Overflow),
        Some(v) => v,
    };
    proof {
        assert(num >= 0) by (nonlinear_arith)
            requires
                num == collateral * threshold,
                collateral >= 0,
                threshold >= 0,
        ;
        lemma_tdiv_bounded(num as int, den as int);
    }
    Ok(div_trunc(num, den))
}

} // verus!
