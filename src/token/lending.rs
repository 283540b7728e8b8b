//! The lending market: supply, withdraw, borrow, repay, collateral, and
//! liquidation of unhealthy positions, with simple interest accrued lazily
//! on every call.
use vstd::prelude::*;
use crate::error::TokenError;
use crate::ledger::{balances_wf, move_funds, read_balance, transfer_balance};
use std::collections::HashMap;
use crate::math::{
    dynamic_borrow_rate, dynamic_supply_rate, risk_score, checked_health_factor, checked_interest, lemma_rate_product_nonneg, div_trunc, fits, health_factor, health_overflows, interest,
    tdiv, utilization, BASIS_POINTS, HEALTHY_FACTOR,
};
use crate::token::{admin_check, commits, Token, TokenState};
use crate::types::{AccountId, EventKind, LendingPool, UserBorrow, UserSupply};

verus! {

/// The outcome of an operation with its value dropped.
pub open spec fn without_value(out: Result<(TokenState, i128), TokenError>) -> Result<
    (TokenState, ()),
    TokenError,
> {
    match out {
        Ok((t, v)) => Ok((t, ())),
        Err(e) => Err(e),
    }
}

/// Liquidation threshold set when the market is created, in basis points.
pub const DEFAULT_LIQUIDATION_THRESHOLD: u32 = 8000;

/// Liquidation penalty set when the market is created, in basis points.
pub const DEFAULT_LIQUIDATION_PENALTY: u32 = 500;

/// Interest as a checked result.
pub open spec fn interest_of(principal: i128, rate: u32, elapsed: int) -> Result<i128, TokenError> {
    if fits(principal * rate * elapsed) {
        Ok(interest(principal as int, rate as int, elapsed) as i128)
    } else {
        Err(TokenError::Overflow)
    }
}

/// A sum as a checked result.
pub open spec fn sum_of(a: int, b: int) -> Result<i128, TokenError> {
    if fits(a + b) {
        Ok((a + b) as i128)
    } else {
        Err(TokenError::Overflow)
    }
}

/// The pool with interest accrued on both totals up to `now`.
pub open spec fn accrue(p: LendingPool, now: u32) -> Result<LendingPool, TokenError> {
    let elapsed = now - p.last_update_ledger;
    if elapsed <= 0 {
        Ok(p)
    } else {
        match interest_of(p.total_borrowed, p.borrow_rate, elapsed) {
            Err(e) => Err(e),
            Ok(bi) => match sum_of(p.total_borrowed as int, bi as int) {
                Err(e) => Err(e),
                Ok(tb) => match interest_of(p.total_supplied, p.supply_rate, elapsed) {
                    Err(e) => Err(e),
                    Ok(si) => match sum_of(p.total_supplied as int, si as int) {
                        Err(e) => Err(e),
                        Ok(ts) => Ok(
                            LendingPool {
                                total_borrowed: tb,
                                total_supplied: ts,
                                last_update_ledger: now,
                                ..p
                            },
                        ),
                    },
                },
            },
        }
    }
}

/// The pool with its utilisation recomputed.
pub open spec fn with_utilization(p: LendingPool) -> Result<LendingPool, TokenError> {
    if p.total_supplied > 0 && !fits(p.total_borrowed * 10000) {
        Err(TokenError::Overflow)
    } else {
        Ok(
            LendingPool {
                utilization_rate: utilization(p.total_borrowed as int, p.total_supplied as int) as u32,
                ..p
            },
        )
    }
}

/// The supply record with its pending interest moved into `accrued_interest`.
pub open spec fn settle_supply(us: UserSupply, p: LendingPool, now: u32) -> Result<
    UserSupply,
    TokenError,
> {
    match interest_of(us.amount, p.supply_rate, now - us.last_update_ledger) {
        Err(e) => Err(e),
        Ok(i) => match sum_of(us.accrued_interest as int, i as int) {
            Err(e) => Err(e),
            Ok(a) => Ok(UserSupply { accrued_interest: a, ..us }),
        },
    }
}

/// The borrow record with its pending interest moved into `accrued_interest`.
pub open spec fn settle_borrow(ub: UserBorrow, p: LendingPool, now: u32) -> Result<
    UserBorrow,
    TokenError,
> {
    match interest_of(ub.amount, p.borrow_rate, now - ub.last_update_ledger) {
        Err(e) => Err(e),
        Ok(i) => match sum_of(ub.accrued_interest as int, i as int) {
            Err(e) => Err(e),
            Ok(a) => Ok(UserBorrow { accrued_interest: a, ..ub }),
        },
    }
}

/// Splits a payment of `x` over accrued interest first, then principal:
/// the new (principal, accrued interest).
pub open spec fn deduct(principal: i128, accrued: i128, x: i128) -> (i128, i128) {
    if x <= accrued {
        (principal, (accrued - x) as i128)
    } else {
        ((principal - (x - accrued)) as i128, 0)
    }
}

pub open spec fn supply_record(s: TokenState, user: AccountId) -> UserSupply {
    if s.supplies.contains_key(user) {
        s.supplies[user]
    } else {
        UserSupply { amount: 0, last_update_ledger: s.now, accrued_interest: 0 }
    }
}

pub open spec fn borrow_record(s: TokenState, user: AccountId) -> UserBorrow {
    if s.borrows.contains_key(user) {
        s.borrows[user]
    } else {
        UserBorrow {
            amount: 0,
            last_update_ledger: s.now,
            accrued_interest: 0,
            collateral_deposited: 0,
        }
    }
}

/// Unborrowed funds of the pool.
pub open spec fn liquidity_of(p: LendingPool) -> Result<i128, TokenError> {
    sum_of(p.total_supplied as int, -(p.total_borrowed as int))
}

/// The state after a position is written back: removed once its debt is
/// cleared (returning the remaining collateral), stored otherwise.
pub open spec fn store_borrow(s: TokenState, user: AccountId, ub: UserBorrow) -> Result<
    TokenState,
    TokenError,
> {
    if ub.amount == 0 && ub.accrued_interest == 0 {
        if ub.collateral_deposited > 0 {
            match move_funds(s.balances, s.contract, user, ub.collateral_deposited as int) {
                Err(e) => Err(e),
                Ok(b) => Ok(TokenState { balances: b, borrows: s.borrows.remove(user), ..s }),
            }
        } else {
            Ok(TokenState { borrows: s.borrows.remove(user), ..s })
        }
    } else {
        Ok(TokenState { borrows: s.borrows.insert(user, ub), ..s })
    }
}

pub open spec fn initialize_lending_pool_rule(
    s: TokenState,
    caller: AccountId,
    supply_rate: u32,
    borrow_rate: u32,
    collateral_factor: u32,
    reserve_factor: u32,
) -> Result<(TokenState, ()), TokenError> {
    match admin_check(s, caller) {
        Err(e) => Err(e),
        Ok(admin) => if s.lending is Some {
            Err(TokenError::AlreadyInitialized)
        } else {
            let p = LendingPool {
                total_supplied: 0,
                total_borrowed: 0,
                supply_rate,
                borrow_rate,
                utilization_rate: 0,
                reserve_factor,
                last_update_ledger: s.now,
                collateral_factor,
            };
            Ok(
                (TokenState {
                    lending: Some(p),
                    liquidation_threshold: DEFAULT_LIQUIDATION_THRESHOLD,
                    liquidation_penalty: DEFAULT_LIQUIDATION_PENALTY,
                    ..s
                }.emit(EventKind::InitializeLending, admin, 0), ()),
            )
        },
    }
}

pub open spec fn supply_rule(s: TokenState, user: AccountId, amount: i128) -> Result<
    (TokenState, ()),
    TokenError,
> {
    if amount < 0 {
        Err(TokenError::NegativeAmount)
    } else if s.frozen.contains(user) {
        Err(TokenError::AccountFrozen)
    } else if s.balance(user) < amount {
        Err(TokenError::InsufficientBalance)
    } else {
        match s.lending {
            None => Err(TokenError::NotInitialized),
            Some(p0) => match accrue(p0, s.now) {
                Err(e) => Err(e),
                Ok(p1) => match settle_supply(supply_record(s, user), p1, s.now) {
                    Err(e) => Err(e),
                    Ok(us1) => match move_funds(s.balances, user, s.contract, amount as int) {
                        Err(e) => Err(e),
                        Ok(b) => match sum_of(us1.amount as int, amount as int) {
                            Err(e) => Err(e),
                            Ok(principal) => match sum_of(p1.total_supplied as int, amount as int) {
                                Err(e) => Err(e),
                                Ok(ts) => match with_utilization(
                                    LendingPool { total_supplied: ts, ..p1 },
                                ) {
                                    Err(e) => Err(e),
                                    Ok(p2) => {
                                        let us2 = UserSupply {
                                            amount: principal,
                                            last_update_ledger: s.now,
                                            ..us1
                                        };
                                        Ok(
                                            (TokenState {
                                                balances: b,
                                                lending: Some(p2),
                                                supplies: s.supplies.insert(user, us2),
                                                ..s
                                            }.emit(EventKind::Supply, user, amount as int), ()),
                                        )
                                    },
                                },
                            },
                        },
                    },
                },
            },
        }
    }
}

pub open spec fn withdraw_rule(s: TokenState, user: AccountId, amount: i128) -> Result<
    (TokenState, i128),
    TokenError,
> {
    if amount < 0 {
        Err(TokenError::NegativeAmount)
    } else if s.frozen.contains(user) {
        Err(TokenError::AccountFrozen)
    } else {
        match s.lending {
            None => Err(TokenError::NotInitialized),
            Some(p0) => match accrue(p0, s.now) {
                Err(e) => Err(e),
                Ok(p1) => if !s.supplies.contains_key(user) {
                    Err(TokenError::NoSupply)
                } else {
                    match settle_supply(s.supplies[user], p1, s.now) {
                        Err(e) => Err(e),
                        Ok(us1) => match sum_of(
                            us1.amount as int,
                            us1.accrued_interest as int,
                        ) {
                            Err(e) => Err(e),
                            Ok(available) => if amount > available {
                                Err(TokenError::InsufficientSupply)
                            } else {
                                match liquidity_of(p1) {
                                    Err(e) => Err(e),
                                    Ok(liquidity) => if amount > liquidity {
                                        Err(TokenError::InsufficientLiquidity)
                                    } else {
                                        match move_funds(
                                            s.balances,
                                            s.contract,
                                            user,
                                            amount as int,
                                        ) {
                                            Err(e) => Err(e),
                                            Ok(b) => match with_utilization(
                                                LendingPool {
                                                    total_supplied: (p1.total_supplied
                                                        - amount) as i128,
                                                    ..p1
                                                },
                                            ) {
                                                Err(e) => Err(e),
                                                Ok(p2) => {
                                                    let (pr, ac) = deduct(
                                                        us1.amount,
                                                        us1.accrued_interest,
                                                        amount,
                                                    );
                                                    let us2 = UserSupply {
                                                        amount: pr,
                                                        last_update_ledger: s.now,
                                                        accrued_interest: ac,
                                                    };
                                                    let supplies = if pr == 0 && ac == 0 {
                                                        s.supplies.remove(user)
                                                    } else {
                                                        s.supplies.insert(user, us2)
                                                    };
                                                    Ok(
                                                        (TokenState {
                                                            balances: b,
                                                            lending: Some(p2),
                                                            supplies,
                                                            ..s
                                                        }.emit(
                                                            EventKind::Withdraw,
                                                            user,
                                                            amount as int,
                                                        ), amount),
                                                    )
                                                },
                                            },
                                        }
                                    },
                                }
                            },
                        },
                    }
                },
            },
        }
    }
}


pub open spec fn borrow_rule(s: TokenState, user: AccountId, amount: i128, collateral_amount: i128) -> Result<
    (TokenState, ()),
    TokenError,
> {
    if amount < 0 || collateral_amount < 0 {
        Err(TokenError::NegativeAmount)
    } else if s.frozen.contains(user) {
        Err(TokenError::AccountFrozen)
    } else if s.balance(user) < collateral_amount {
        Err(TokenError::InsufficientBalance)
    } else {
        match s.lending {
            None => Err(TokenError::NotInitialized),
            Some(p0) => match accrue(p0, s.now) {
                Err(e) => Err(e),
                Ok(p1) => match liquidity_of(p1) {
                    Err(e) => Err(e),
                    Ok(liquidity) => if amount > liquidity {
                        Err(TokenError::InsufficientLiquidity)
                    } else {
                        match settle_borrow(borrow_record(s, user), p1, s.now) {
                            Err(e) => Err(e),
                            Ok(ub1) => match sum_of(ub1.debt(), amount as int) {
                                Err(e) => Err(e),
                                Ok(total_debt) => match sum_of(
                                    ub1.collateral_deposited as int,
                                    collateral_amount as int,
                                ) {
                                    Err(e) => Err(e),
                                    Ok(total_collateral) => if !fits(total_debt * 10000) {
                                        Err(TokenError::Overflow)
                                    } else if total_collateral * p1.collateral_factor
                                        < total_debt * 10000 {
                                        Err(TokenError::InsufficientCollateral)
                                    } else {
                                        borrow_commit(
                                            s,
                                            user,
                                            amount,
                                            collateral_amount,
                                            p1,
                                            ub1,
                                            total_collateral,
                                        )
                                    },
                                },
                            },
                        }
                    },
                },
            },
        }
    }
}

/// The value moves and writes of a borrow whose checks passed.
pub open spec fn borrow_commit(
    s: TokenState,
    user: AccountId,
    amount: i128,
    collateral_amount: i128,
    p1: LendingPool,
    ub1: UserBorrow,
    total_collateral: i128,
) -> Result<(TokenState, ()), TokenError> {
    match move_funds(s.balances, user, s.contract, collateral_amount as int) {
        Err(e) => Err(e),
        Ok(b1) => match move_funds(b1, s.contract, user, amount as int) {
            Err(e) => Err(e),
            Ok(b2) => match with_utilization(
                LendingPool { total_borrowed: (p1.total_borrowed + amount) as i128, ..p1 },
            ) {
                Err(e) => Err(e),
                Ok(p2) => {
                    let ub2 = UserBorrow {
                        amount: (ub1.amount + amount) as i128,
                        collateral_deposited: total_collateral,
                        last_update_ledger: s.now,
                        ..ub1
                    };
                    Ok(
                        (TokenState {
                            balances: b2,
                            lending: Some(p2),
                            borrows: s.borrows.insert(user, ub2),
                            ..s
                        }.emit(EventKind::Borrow, user, amount as int), ()),
                    )
                },
            },
        },
    }
}

pub open spec fn repay_rule(s: TokenState, user: AccountId, amount: i128) -> Result<
    (TokenState, i128),
    TokenError,
> {
    if amount < 0 {
        Err(TokenError::NegativeAmount)
    } else if s.frozen.contains(user) {
        Err(TokenError::AccountFrozen)
    } else if s.balance(user) < amount {
        Err(TokenError::InsufficientBalance)
    } else {
        match s.lending {
            None => Err(TokenError::NotInitialized),
            Some(p0) => match accrue(p0, s.now) {
                Err(e) => Err(e),
                Ok(p1) => if !s.borrows.contains_key(user) {
                    Err(TokenError::NoBorrow)
                } else {
                    match settle_borrow(s.borrows[user], p1, s.now) {
                        Err(e) => Err(e),
                        Ok(ub1) => match sum_of(ub1.amount as int, ub1.accrued_interest as int) {
                            Err(e) => Err(e),
                            Ok(debt) => {
                                let repaid = if amount > debt {
                                    debt
                                } else {
                                    amount
                                };
                                match move_funds(s.balances, user, s.contract, repaid as int) {
                                    Err(e) => Err(e),
                                    Ok(b1) => match sum_of(
                                        p1.total_borrowed as int,
                                        -(repaid as int),
                                    ) {
                                        Err(e) => Err(e),
                                        Ok(tb) => match with_utilization(
                                            LendingPool { total_borrowed: tb, ..p1 },
                                        ) {
                                            Err(e) => Err(e),
                                            Ok(p2) => {
                                                let (pr, ac) = deduct(
                                                    ub1.amount,
                                                    ub1.accrued_interest,
                                                    repaid,
                                                );
                                                let ub2 = UserBorrow {
                                                    amount: pr,
                                                    accrued_interest: ac,
                                                    last_update_ledger: s.now,
                                                    ..ub1
                                                };
                                                match store_borrow(
                                                    TokenState {
                                                        balances: b1,
                                                        lending: Some(p2),
                                                        ..s
                                                    },
                                                    user,
                                                    ub2,
                                                ) {
                                                    Err(e) => Err(e),
                                                    Ok(t) => Ok(
                                                        (t.emit(
                                                            EventKind::Repay,
                                                            user,
                                                            repaid as int,
                                                        ), repaid),
                                                    ),
                                                }
                                            },
                                        },
                                    },
                                }
                            },
                        },
                    }
                },
            },
        }
    }
}

/// The repayment a liquidation makes: the request, capped at half the debt.
pub open spec fn liquidation_repay(requested: int, debt: int) -> int {
    if requested > debt / 2 {
        debt / 2
    } else {
        requested
    }
}

/// The collateral a liquidation seizes for repaying `repaid`: the repayment
/// plus the penalty on it.
pub open spec fn liquidation_seizure(repaid: int, penalty: int) -> int {
    repaid + tdiv(repaid * penalty, 10000)
}

pub open spec fn liquidate_rule(
    s: TokenState,
    liquidator: AccountId,
    borrower: AccountId,
    repay_amount: i128,
) -> Result<(TokenState, i128), TokenError> {
    if repay_amount < 0 {
        Err(TokenError::NegativeAmount)
    } else if s.frozen.contains(liquidator) {
        Err(TokenError::AccountFrozen)
    } else if s.balance(liquidator) < repay_amount {
        Err(TokenError::InsufficientBalance)
    } else {
        match s.lending {
            None => Err(TokenError::NotInitialized),
            Some(p0) => match accrue(p0, s.now) {
                Err(e) => Err(e),
                Ok(p1) => if !s.borrows.contains_key(borrower) {
                    Err(TokenError::NoBorrow)
                } else {
                    match settle_borrow(s.borrows[borrower], p1, s.now) {
                        Err(e) => Err(e),
                        Ok(ub1) => match sum_of(ub1.amount as int, ub1.accrued_interest as int) {
                            Err(e) => Err(e),
                            Ok(debt) => if health_overflows(
                                ub1.collateral_deposited as int,
                                s.liquidation_threshold as int,
                                debt as int,
                            ) {
                                Err(TokenError::Overflow)
                            } else if health_factor(
                                ub1.collateral_deposited as int,
                                s.liquidation_threshold as int,
                                debt as int,
                            ) >= HEALTHY_FACTOR {
                                Err(TokenError::PositionHealthy)
                            } else {
                                let repaid = liquidation_repay(repay_amount as int, debt as int);
                                if !fits(repaid * s.liquidation_penalty) {
                                    Err(TokenError::Overflow)
                                } else if !fits(
                                    liquidation_seizure(repaid, s.liquidation_penalty as int),
                                ) {
                                    Err(TokenError::Overflow)
                                } else if liquidation_seizure(
                                    repaid,
                                    s.liquidation_penalty as int,
                                ) > ub1.collateral_deposited {
                                    Err(TokenError::InsufficientCollateralToSeize)
                                } else {
                                    liquidate_commit(
                                        s,
                                        liquidator,
                                        borrower,
                                        p1,
                                        ub1,
                                        repaid as i128,
                                        liquidation_seizure(
                                            repaid,
                                            s.liquidation_penalty as int,
                                        ) as i128,
                                    )
                                }
                            },
                        },
                    }
                },
            },
        }
    }
}

/// The value moves and writes of a liquidation whose checks passed.
pub open spec fn liquidate_commit(
    s: TokenState,
    liquidator: AccountId,
    borrower: AccountId,
    p1: LendingPool,
    ub1: UserBorrow,
    repaid: i128,
    seized: i128,
) -> Result<(TokenState, i128), TokenError> {
    match move_funds(s.balances, liquidator, s.contract, repaid as int) {
        Err(e) => Err(e),
        Ok(b1) => match move_funds(b1, s.contract, liquidator, seized as int) {
            Err(e) => Err(e),
            Ok(b2) => match sum_of(p1.total_borrowed as int, -(repaid as int)) {
                Err(e) => Err(e),
                Ok(tb) => match with_utilization(LendingPool { total_borrowed: tb, ..p1 }) {
                    Err(e) => Err(e),
                    Ok(p2) => {
                        let (pr, ac) = deduct(ub1.amount, ub1.accrued_interest, repaid);
                        let ub2 = UserBorrow {
                            amount: pr,
                            accrued_interest: ac,
                            collateral_deposited: (ub1.collateral_deposited - seized) as i128,
                            last_update_ledger: s.now,
                        };
                        match store_borrow(
                            TokenState { balances: b2, lending: Some(p2), ..s },
                            borrower,
                            ub2,
                        ) {
                            Err(e) => Err(e),
                            Ok(t) => Ok(
                                (t.emit(EventKind::Liquidate, liquidator, repaid as int), repaid),
                            ),
                        }
                    },
                },
            },
        },
    }
}

pub open spec fn add_collateral_rule(s: TokenState, user: AccountId, amount: i128) -> Result<
    (TokenState, ()),
    TokenError,
> {
    if amount < 0 {
        Err(TokenError::NegativeAmount)
    } else if s.frozen.contains(user) {
        Err(TokenError::AccountFrozen)
    } else if s.balance(user) < amount {
        Err(TokenError::InsufficientBalance)
    } else {
        match s.lending {
            None => Err(TokenError::NotInitialized),
            Some(p0) => match accrue(p0, s.now) {
                Err(e) => Err(e),
                Ok(p1) => if !s.borrows.contains_key(user) {
                    Err(TokenError::NoBorrow)
                } else {
                    let ub = s.borrows[user];
                    match move_funds(s.balances, user, s.contract, amount as int) {
                        Err(e) => Err(e),
                        Ok(b) => match sum_of(ub.collateral_deposited as int, amount as int) {
                            Err(e) => Err(e),
                            Ok(c) => Ok(
                                (TokenState {
                                    balances: b,
                                    lending: Some(p1),
                                    borrows: s.borrows.insert(
                                        user,
                                        UserBorrow { collateral_deposited: c, ..ub },
                                    ),
                                    ..s
                                }.emit(EventKind::AddCollateral, user, amount as int), ()),
                            ),
                        },
                    }
                },
            },
        }
    }
}

/// Debt of a position including interest pending at `now`, as a checked
/// result.
pub open spec fn current_debt(ub: UserBorrow, p: LendingPool, now: u32) -> Result<i128, TokenError> {
    match interest_of(ub.amount, p.borrow_rate, now - ub.last_update_ledger) {
        Err(e) => Err(e),
        Ok(i) => match sum_of(ub.amount as int, ub.accrued_interest as int) {
            Err(e) => Err(e),
            Ok(d) => sum_of(d as int, i as int),
        },
    }
}

pub open spec fn remove_collateral_rule(s: TokenState, user: AccountId, amount: i128) -> Result<
    (TokenState, ()),
    TokenError,
> {
    if amount < 0 {
        Err(TokenError::NegativeAmount)
    } else if s.frozen.contains(user) {
        Err(TokenError::AccountFrozen)
    } else {
        match s.lending {
            None => Err(TokenError::NotInitialized),
            Some(p0) => match accrue(p0, s.now) {
                Err(e) => Err(e),
                Ok(p1) => if !s.borrows.contains_key(user) {
                    Err(TokenError::NoBorrow)
                } else {
                    let ub = s.borrows[user];
                    match current_debt(ub, p1, s.now) {
                        Err(e) => Err(e),
                        Ok(debt) => {
                            let remaining = ub.collateral_deposited - amount;
                            if remaining < 0 {
                                Err(TokenError::UnsafeCollateralRemoval)
                            } else if !fits(debt * 10000) {
                                Err(TokenError::Overflow)
                            } else if remaining * p1.collateral_factor < debt * 10000 {
                                Err(TokenError::UnsafeCollateralRemoval)
                            } else {
                                match move_funds(s.balances, s.contract, user, amount as int) {
                                    Err(e) => Err(e),
                                    Ok(b) => Ok(
                                        (TokenState {
                                            balances: b,
                                            lending: Some(p1),
                                            borrows: s.borrows.insert(
                                                user,
                                                UserBorrow {
                                                    collateral_deposited: remaining as i128,
                                                    ..ub
                                                },
                                            ),
                                            ..s
                                        }.emit(EventKind::RemoveCollateral, user, amount as int), ()),
                                    ),
                                }
                            }
                        },
                    }
                },
            },
        }
    }
}


/// Health factor of `user`'s position, interest pending at `now` included;
/// the maximum value without a position or without debt.
pub open spec fn health_query(s: TokenState, user: AccountId) -> Result<i128, TokenError> {
    if !s.borrows.contains_key(user) {
        Ok(i128::MAX)
    } else {
        match s.lending {
            None => Err(TokenError::NotInitialized),
            Some(p) => {
                let ub = s.borrows[user];
                match current_debt(ub, p, s.now) {
                    Err(e) => Err(e),
                    Ok(debt) => if health_overflows(
                        ub.collateral_deposited as int,
                        s.liquidation_threshold as int,
                        debt as int,
                    ) {
                        Err(TokenError::Overflow)
                    } else {
                        Ok(
                            health_factor(
                                ub.collateral_deposited as int,
                                s.liquidation_threshold as int,
                                debt as int,
                            ) as i128,
                        )
                    },
                }
            },
        }
    }
}

pub open spec fn pending_supply_interest(s: TokenState, user: AccountId) -> Result<i128, TokenError> {
    if !s.supplies.contains_key(user) {
        Ok(0)
    } else {
        match s.lending {
            None => Err(TokenError::NotInitialized),
            Some(p) => interest_of(
                s.supplies[user].amount,
                p.supply_rate,
                s.now - s.supplies[user].last_update_ledger,
            ),
        }
    }
}

pub open spec fn pending_borrow_interest(s: TokenState, user: AccountId) -> Result<i128, TokenError> {
    if !s.borrows.contains_key(user) {
        Ok(0)
    } else {
        match s.lending {
            None => Err(TokenError::NotInitialized),
            Some(p) => interest_of(
                s.borrows[user].amount,
                p.borrow_rate,
                s.now - s.borrows[user].last_update_ledger,
            ),
        }
    }
}

/// (supplied with interest, debt recorded, collateral, health factor).
pub open spec fn position_summary(s: TokenState, user: AccountId) -> Result<
    (i128, i128, i128, i128),
    TokenError,
> {
    let supplied = if s.supplies.contains_key(user) {
        sum_of(s.supplies[user].amount as int, s.supplies[user].accrued_interest as int)
    } else {
        Ok(0i128)
    };
    let borrowed = if s.borrows.contains_key(user) {
        sum_of(s.borrows[user].amount as int, s.borrows[user].accrued_interest as int)
    } else {
        Ok(0i128)
    };
    let collateral = if s.borrows.contains_key(user) {
        s.borrows[user].collateral_deposited
    } else {
        0
    };
    match supplied {
        Err(e) => Err(e),
        Ok(a) => match borrowed {
            Err(e) => Err(e),
            Ok(d) => match health_query(s, user) {
                Err(e) => Err(e),
                Ok(h) => Ok((a, d, collateral, h)),
            },
        },
    }
}

pub open spec fn update_lending_rates_rule(
    s: TokenState,
    caller: AccountId,
    supply_rate: u32,
    borrow_rate: u32,
) -> Result<(TokenState, ()), TokenError> {
    match admin_check(s, caller) {
        Err(e) => Err(e),
        Ok(admin) => match s.lending {
            None => Err(TokenError::NotInitialized),
            Some(p) => Ok(
                (TokenState { lending: Some(LendingPool { supply_rate, borrow_rate, ..p }), ..s }.emit(
                    EventKind::UpdateLendingRates,
                    admin,
                    supply_rate as int,
                ), ()),
            ),
        },
    }
}

pub open spec fn update_liquidation_params_rule(
    s: TokenState,
    caller: AccountId,
    threshold: u32,
    penalty: u32,
) -> Result<(TokenState, ()), TokenError> {
    match admin_check(s, caller) {
        Err(e) => Err(e),
        Ok(admin) => Ok(
            (TokenState {
                liquidation_threshold: threshold,
                liquidation_penalty: penalty,
                ..s
            }.emit(EventKind::UpdateLiquidationParams, admin, threshold as int), ()),
        ),
    }
}

pub open spec fn update_collateral_factor_rule(s: TokenState, caller: AccountId, factor: u32) -> Result<
    (TokenState, ()),
    TokenError,
> {
    match admin_check(s, caller) {
        Err(e) => Err(e),
        Ok(admin) => match s.lending {
            None => Err(TokenError::NotInitialized),
            Some(p) => Ok(
                (TokenState {
                    lending: Some(LendingPool { collateral_factor: factor, ..p }),
                    ..s
                }.emit(EventKind::UpdateCollateralFactor, admin, factor as int), ()),
            ),
        },
    }
}

pub open spec fn update_dynamic_rates_rule(s: TokenState, caller: AccountId) -> Result<
    (TokenState, ()),
    TokenError,
> {
    match admin_check(s, caller) {
        Err(e) => Err(e),
        Ok(admin) => match s.lending {
            None => Err(TokenError::NotInitialized),
            Some(p) => {
                let u = p.utilization_rate as int;
                let br = dynamic_borrow_rate(u);
                if p.reserve_factor > 10000 {
                    Err(TokenError::InvalidParameter)
                } else if dynamic_supply_rate(br, u, p.reserve_factor as int) > u32::MAX {
                    Err(TokenError::Overflow)
                } else {
                    let sr = dynamic_supply_rate(br, u, p.reserve_factor as int);
                    Ok(
                        (TokenState {
                            lending: Some(
                                LendingPool { borrow_rate: br as u32, supply_rate: sr as u32, ..p },
                            ),
                            ..s
                        }.emit(EventKind::DynamicRateUpdate, admin, br), ()),
                    )
                }
            },
        },
    }
}

/// Reserves the administrator may withdraw: the reserve factor's share of
/// what the pool holds beyond its loans.
pub open spec fn available_reserves(p: LendingPool) -> Result<i128, TokenError> {
    let earned = if p.total_supplied > p.total_borrowed {
        sum_of(p.total_supplied as int, -(p.total_borrowed as int))
    } else {
        Ok(0i128)
    };
    match earned {
        Err(e) => Err(e),
        Ok(x) => if !fits(x * p.reserve_factor) {
            Err(TokenError::Overflow)
        } else {
            Ok(tdiv(x * p.reserve_factor, 10000) as i128)
        },
    }
}

pub open spec fn withdraw_reserves_rule(s: TokenState, caller: AccountId, amount: i128) -> Result<
    (TokenState, ()),
    TokenError,
> {
    match admin_check(s, caller) {
        Err(e) => Err(e),
        Ok(admin) => if amount < 0 {
            Err(TokenError::NegativeAmount)
        } else {
            match s.lending {
                None => Err(TokenError::NotInitialized),
                Some(p) => match available_reserves(p) {
                    Err(e) => Err(e),
                    Ok(reserves) => if amount > reserves {
                        Err(TokenError::InsufficientReserves)
                    } else {
                        match move_funds(s.balances, s.contract, admin, amount as int) {
                            Err(e) => Err(e),
                            Ok(b) => Ok(
                                (TokenState { balances: b, ..s }.emit(
                                    EventKind::WithdrawReserves,
                                    admin,
                                    amount as int,
                                ), ()),
                            ),
                        }
                    },
                },
            }
        },
    }
}

/// (total supplied, total borrowed, utilisation, risk score).
pub open spec fn risk_metrics(s: TokenState, caller: AccountId) -> Result<
    (i128, i128, u32, u32),
    TokenError,
> {
    match admin_check(s, caller) {
        Err(e) => Err(e),
        Ok(admin) => match s.lending {
            None => Err(TokenError::NotInitialized),
            Some(p) => Ok(
                (
                    p.total_supplied,
                    p.total_borrowed,
                    p.utilization_rate,
                    risk_score(p.utilization_rate as int) as u32,
                ),
            ),
        },
    }
}

pub open spec fn emergency_withdraw_lending_rule(s: TokenState, caller: AccountId) -> Result<
    (TokenState, i128),
    TokenError,
> {
    match admin_check(s, caller) {
        Err(e) => Err(e),
        Ok(admin) => {
            let balance = s.balance(s.contract);
            if balance > 0 {
                match move_funds(s.balances, s.contract, admin, balance) {
                    Err(e) => Err(e),
                    Ok(b) => {
                        let lending = match s.lending {
                            Some(p) => Some(
                                LendingPool {
                                    total_supplied: 0,
                                    total_borrowed: 0,
                                    utilization_rate: 0,
                                    ..p
                                },
                            ),
                            None => None,
                        };
                        Ok(
                            (TokenState { balances: b, lending, ..s }.emit(
                                EventKind::EmergencyWithdrawLending,
                                admin,
                                balance,
                            ), balance as i128),
                        )
                    },
                }
            } else {
                Ok((s, 0))
            }
        },
    }
}

pub open spec fn accrue_manual_rule(s: TokenState) -> Result<(TokenState, ()), TokenError> {
    match s.lending {
        None => Err(TokenError::NotInitialized),
        Some(p) => match accrue(p, s.now) {
            Err(e) => Err(e),
            Ok(p1) => Ok(
                (TokenState { lending: Some(p1), ..s }.emit(
                    EventKind::ManualInterestAccrual,
                    s.contract,
                    0,
                ), ()),
            ),
        },
    }
}

/// How much more `user` could borrow with `collateral_amount` of
/// collateral, given their current debt.
pub open spec fn max_borrowable(s: TokenState, user: AccountId, collateral_amount: i128) -> Result<
    i128,
    TokenError,
> {
    match s.lending {
        None => Err(TokenError::NotInitialized),
        Some(p) => {
            let debt = if s.borrows.contains_key(user) {
                current_debt(s.borrows[user], p, s.now)
            } else {
                Ok(0i128)
            };
            match debt {
                Err(e) => Err(e),
                Ok(d) => if !fits(collateral_amount * p.collateral_factor) {
                    Err(TokenError::Overflow)
                } else {
                    let max_total = tdiv(collateral_amount * p.collateral_factor, 10000);
                    if max_total > d {
                        Ok((max_total - d) as i128)
                    } else {
                        Ok(0)
                    }
                },
            }
        },
    }
}

/// The accounts among `users` whose health factor is below the healthy
/// level, in order; fails on the first account whose factor cannot be
/// computed.
pub open spec fn liquidatable_among(s: TokenState, users: Seq<AccountId>) -> Result<
    Seq<AccountId>,
    TokenError,
>
    decreases users.len(),
{
    if users.len() == 0 {
        Ok(Seq::empty())
    } else {
        match liquidatable_among(s, users.drop_last()) {
            Err(e) => Err(e),
            Ok(found) => match health_query(s, users.last()) {
                Err(e) => Err(e),
                Ok(h) => if h < HEALTHY_FACTOR {
                    Ok(found.push(users.last()))
                } else {
                    Ok(found)
                },
            },
        }
    }
}

pub open spec fn find_liquidatable_rule(s: TokenState, caller: AccountId, users: Seq<AccountId>) -> Result<
    Seq<AccountId>,
    TokenError,
> {
    match admin_check(s, caller) {
        Err(e) => Err(e),
        Ok(admin) => liquidatable_among(s, users),
    }
}

/// `a + b`, saturating at the largest `i128`.
pub open spec fn saturating_sum(a: int, b: int) -> int {
    if a + b > i128::MAX {
        i128::MAX as int
    } else {
        a + b
    }
}

/// Runs a batch of liquidations in order: a target whose health factor is
/// not below the healthy level, or whose liquidation fails, is skipped;
/// each one that succeeds keeps its effects. Gives the state after the
/// batch and the total repaid.
pub open spec fn batch_run(s: TokenState, liquidator: AccountId, targets: Seq<(AccountId, i128)>) -> (
    TokenState,
    int,
)
    decreases targets.len(),
{
    if targets.len() == 0 {
        (s, 0)
    } else {
        let (t, total) = batch_run(s, liquidator, targets.drop_last());
        let (borrower, amount) = targets.last();
        match health_query(t, borrower) {
            Ok(h) => if h < HEALTHY_FACTOR {
                match liquidate_rule(t, liquidator, borrower, amount) {
                    Ok((t2, repaid)) => (t2, saturating_sum(total, repaid as int)),
                    Err(e) => (t, total),
                }
            } else {
                (t, total)
            },
            Err(e) => (t, total),
        }
    }
}

/// Most targets one batch may hold.
pub const MAX_BATCH_TARGETS: usize = 10;

pub open spec fn batch_liquidate_rule(
    s: TokenState,
    liquidator: AccountId,
    targets: Seq<(AccountId, i128)>,
) -> Result<(TokenState, ()), TokenError> {
    if targets.len() > MAX_BATCH_TARGETS {
        Err(TokenError::TooManyTargets)
    } else {
        let (t, total) = batch_run(s, liquidator, targets);
        Ok((t.emit(EventKind::BatchLiquidate, liquidator, total), ()))
    }
}

fn accrue_pool(p: LendingPool, now: u32) -> (r: Result<LendingPool, TokenError>)
    requires
        p.last_update_ledger <= now,
    ensures
        r == accrue(p, now),
{
    let elapsed = now - p.last_update_ledger;
    if elapsed == 0 {
        return Ok(p);
    }
    let bi = match checked_interest(p.total_borrowed, p.borrow_rate, elapsed) {
        Err(e) => return Err(e),
        Ok(v) => v,
    };
    let tb = match p.total_borrowed.checked_add(bi) {
        None => return Err(TokenError::Overflow),
        Some(v) => v,
    };
    let si = match checked_interest(p.total_supplied, p.supply_rate, elapsed) {
        Err(e) => return Err(e),
        Ok(v) => v,
    };
    let ts = match p.total_supplied.checked_add(si) {
        None => return Err(TokenError::Overflow),
        Some(v) => v,
    };
    Ok(LendingPool { total_borrowed: tb, total_supplied: ts, last_update_ledger: now, ..p })
}

fn update_utilization_rate(p: LendingPool) -> (r: Result<LendingPool, TokenError>)
    ensures
        r == with_utilization(p),
{
    if p.total_supplied <= 0 {
        return Ok(LendingPool { utilization_rate: 0, ..p });
    }
    let scaled = match p.total_borrowed.checked_mul(10000) {
        None => return Err(TokenError::Overflow),
        Some(v) => v,
    };
    let q = div_trunc(scaled, p.total_supplied);
    let u: u32 = if q < 0 {
        0
    } else if q > u32::MAX as i128 {
        u32::MAX
    } else {
        q as u32
    };
    Ok(LendingPool { utilization_rate: u, ..p })
}

fn calculate_supply_interest(us: UserSupply, p: LendingPool, now: u32) -> (r: Result<
    UserSupply,
    TokenError,
>)
    requires
        us.last_update_ledger <= now,
    ensures
        r == settle_supply(us, p, now),
{
    let i = match checked_interest(us.amount, p.supply_rate, now - us.last_update_ledger) {
        Err(e) => return Err(e),
        Ok(v) => v,
    };
    match us.accrued_interest.checked_add(i) {
        None => Err(TokenError::Overflow),
        Some(a) => Ok(UserSupply { accrued_interest: a, ..us }),
    }
}

fn calculate_borrow_interest(ub: UserBorrow, p: LendingPool, now: u32) -> (r: Result<
    UserBorrow,
    TokenError,
>)
    requires
        ub.last_update_ledger <= now,
    ensures
        r == settle_borrow(ub, p, now),
{
    let i = match checked_interest(ub.amount, p.borrow_rate, now - ub.last_update_ledger) {
        Err(e) => return Err(e),
        Ok(v) => v,
    };
    match ub.accrued_interest.checked_add(i) {
        None => Err(TokenError::Overflow),
        Some(a) => Ok(UserBorrow { accrued_interest: a, ..ub }),
    }
}

fn pool_liquidity(p: LendingPool) -> (r: Result<i128, TokenError>)
    ensures
        r == liquidity_of(p),
{
    match p.total_supplied.checked_sub(p.total_borrowed) {
        None => Err(TokenError::Overflow),
        Some(v) => Ok(v),
    }
}

fn deduct_payment(principal: i128, accrued: i128, x: i128) -> (r: (i128, i128))
    requires
        0 <= accrued,
        0 <= x <= principal + accrued,
    ensures
        r == deduct(principal, accrued, x),
{
    if x <= accrued {
        (principal, accrued - x)
    } else {
        (principal - (x - accrued), 0)
    }
}

impl Token {
    /// Creates the lending market with the given rates and factors (basis
    /// points); administrator only, once.
    pub fn initialize_lending_pool(
        &mut self,
        caller: AccountId,
        supply_rate: u32,
        borrow_rate: u32,
        collateral_factor: u32,
        reserve_factor: u32,
    ) -> (r: Result<(), TokenError>)
        requires
            old(self)@.wf(),
        ensures
            final(self)@.wf(),
            commits(
                r,
                initialize_lending_pool_rule(
                    old(self)@,
                    caller,
                    supply_rate,
                    borrow_rate,
                    collateral_factor,
                    reserve_factor,
                ),
                old(self)@,
                final(self)@,
            ),
    {
        let admin = match self.require_admin(caller) {
            Err(e) => return Err(e),
            Ok(a) => a,
        };
        if self.lending.is_some() {
            return Err(TokenError::AlreadyInitialized);
        }
        self.lending = Some(
            LendingPool {
                total_supplied: 0,
                total_borrowed: 0,
                supply_rate,
                borrow_rate,
                utilization_rate: 0,
                reserve_factor,
                last_update_ledger: self.now,
                collateral_factor,
            },
        );
        self.liquidation_threshold = DEFAULT_LIQUIDATION_THRESHOLD;
        self.liquidation_penalty = DEFAULT_LIQUIDATION_PENALTY;
        self.emit_event(EventKind::InitializeLending, admin, 0);
        Ok(())
    }

    /// Deposits `amount` of `user`'s balance into the market.
    pub fn supply(&mut self, user: AccountId, amount: i128) -> (r: Result<(), TokenError>)
        requires
            old(self)@.wf(),
        ensures
            final(self)@.wf(),
            commits(r, supply_rule(old(self)@, user, amount), old(self)@, final(self)@),
    {
        if amount < 0 {
            return Err(TokenError::NegativeAmount);
        }
        if self.frozen.contains(&user) {
            return Err(TokenError::AccountFrozen);
        }
        if read_balance(&self.balances, user) < amount {
            return Err(TokenError::InsufficientBalance);
        }
        let p0 = match self.lending {
            None => return Err(TokenError::NotInitialized),
            Some(p) => p,
        };
        let p1 = match accrue_pool(p0, self.now) {
            Err(e) => return Err(e),
            Ok(p) => p,
        };
        let us0 = match self.supplies.get(&user) {
            Some(us) => *us,
            None => UserSupply { amount: 0, last_update_ledger: self.now, accrued_interest: 0 },
        };
        let us1 = match calculate_supply_interest(us0, p1, self.now) {
            Err(e) => return Err(e),
            Ok(us) => us,
        };
        let mut b = self.balances.clone();
        if let Err(e) = transfer_balance(&mut b, user, self.contract, amount) {
            return Err(e);
        }
        let principal = match us1.amount.checked_add(amount) {
            None => return Err(TokenError::Overflow),
            Some(v) => v,
        };
        let ts = match p1.total_supplied.checked_add(amount) {
            None => return Err(TokenError::Overflow),
            Some(v) => v,
        };
        let p2 = match update_utilization_rate(LendingPool { total_supplied: ts, ..p1 }) {
            Err(e) => return Err(e),
            Ok(p) => p,
        };
        let us2 = UserSupply { amount: principal, last_update_ledger: self.now, ..us1 };
        self.balances = b;
        self.lending = Some(p2);
        self.supplies.insert(user, us2);
        self.emit_event(EventKind::Supply, user, amount);
        Ok(())
    }

    /// Takes `amount` out of `user`'s deposit, interest first.
    pub fn withdraw(&mut self, user: AccountId, amount: i128) -> (r: Result<i128, TokenError>)
        requires
            old(self)@.wf(),
        ensures
            final(self)@.wf(),
            commits(r, withdraw_rule(old(self)@, user, amount), old(self)@, final(self)@),
    {
        if amount < 0 {
            return Err(TokenError::NegativeAmount);
        }
        if self.frozen.contains(&user) {
            return Err(TokenError::AccountFrozen);
        }
        let p0 = match self.lending {
            None => return Err(TokenError::NotInitialized),
            Some(p) => p,
        };
        let p1 = match accrue_pool(p0, self.now) {
            Err(e) => return Err(e),
            Ok(p) => p,
        };
        let us0 = match self.supplies.get(&user) {
            Some(us) => *us,
            None => return Err(TokenError::NoSupply),
        };
        let us1 = match calculate_supply_interest(us0, p1, self.now) {
            Err(e) => return Err(e),
            Ok(us) => us,
        };
        let available = match us1.amount.checked_add(us1.accrued_interest) {
            None => return Err(TokenError::Overflow),
            Some(v) => v,
        };
        if amount > available {
            return Err(TokenError::InsufficientSupply);
        }
        let liquidity = match pool_liquidity(p1) {
            Err(e) => return Err(e),
            Ok(v) => v,
        };
        if amount > liquidity {
            return Err(TokenError::InsufficientLiquidity);
        }
        let mut b = self.balances.clone();
        if let Err(e) = transfer_balance(&mut b, self.contract, user, amount) {
            return Err(e);
        }
        let p2 = match update_utilization_rate(
            LendingPool { total_supplied: p1.total_supplied - amount, ..p1 },
        ) {
            Err(e) => return Err(e),
            Ok(p) => p,
        };
        let (pr, ac) = deduct_payment(us1.amount, us1.accrued_interest, amount);
        self.balances = b;
        self.lending = Some(p2);
        if pr == 0 && ac == 0 {
            self.supplies.remove(&user);
        } else {
            self.supplies.insert(
                user,
                UserSupply { amount: pr, last_update_ledger: self.now, accrued_interest: ac },
            );
        }
        self.emit_event(EventKind::Withdraw, user, amount);
        Ok(amount)
    }
}


/// Settling interest on a well-formed borrow record keeps it well formed.
proof fn lemma_settle_borrow_wf(ub: UserBorrow, p: LendingPool, now: u32)
    requires
        ub.wf(now),
        settle_borrow(ub, p, now) is Ok,
    ensures
        settle_borrow(ub, p, now)->Ok_0.wf(now),
        settle_borrow(ub, p, now)->Ok_0.amount == ub.amount,
        settle_borrow(ub, p, now)->Ok_0.collateral_deposited == ub.collateral_deposited,
        settle_borrow(ub, p, now)->Ok_0.accrued_interest >= ub.accrued_interest,
{
    lemma_rate_product_nonneg(
        ub.amount as int,
        p.borrow_rate as int,
        now - ub.last_update_ledger,
        crate::math::INTEREST_DIVISOR as int,
    );
}

/// Settling interest on a well-formed supply record keeps it well formed.
proof fn lemma_settle_supply_wf(us: UserSupply, p: LendingPool, now: u32)
    requires
        us.wf(now),
        settle_supply(us, p, now) is Ok,
    ensures
        settle_supply(us, p, now)->Ok_0.wf(now),
        settle_supply(us, p, now)->Ok_0.amount == us.amount,
{
    lemma_rate_product_nonneg(
        us.amount as int,
        p.supply_rate as int,
        now - us.last_update_ledger,
        crate::math::INTEREST_DIVISOR as int,
    );
}

impl Token {
    /// Writes a position back, or removes it and returns its collateral once
    /// its debt is cleared, committing the staged balances `b` and pool `p`.
    fn store_position(
        &mut self,
        b: HashMap<AccountId, i128>,
        p: LendingPool,
        user: AccountId,
        ub: UserBorrow,
    ) -> (r: Result<(), TokenError>)
        requires
            old(self)@.wf(),
            balances_wf(b@),
            ub.wf(old(self)@.now),
            p.last_update_ledger <= old(self)@.now,
        ensures
            final(self)@.wf(),
            match store_borrow(
                TokenState { balances: b@, lending: Some(p), ..old(self)@ },
                user,
                ub,
            ) {
                Ok(t) => r is Ok && final(self)@ == t,
                Err(e) => r == Err::<(), TokenError>(e) && final(self)@ == old(self)@,
            },
    {
        let mut b = b;
        if ub.amount == 0 && ub.accrued_interest == 0 {
            if ub.collateral_deposited > 0 {
                if let Err(e) = transfer_balance(&mut b, self.contract, user, ub.collateral_deposited) {
                    return Err(e);
                }
            }
            self.borrows.remove(&user);
        } else {
            self.borrows.insert(user, ub);
        }
        self.balances = b;
        self.lending = Some(p);
        Ok(())
    }

    /// Borrows `amount` from the pool against `user`'s collateral, adding
    /// `collateral_amount` to it.
    pub fn borrow(&mut self, user: AccountId, amount: i128, collateral_amount: i128) -> (r: Result<
        (),
        TokenError,
    >)
        requires
            old(self)@.wf(),
        ensures
            final(self)@.wf(),
            commits(
                r,
                borrow_rule(old(self)@, user, amount, collateral_amount),
                old(self)@,
                final(self)@,
            ),
    {
        if amount < 0 || collateral_amount < 0 {
            return Err(TokenError::NegativeAmount);
        }
        if self.frozen.contains(&user) {
            return Err(TokenError::AccountFrozen);
        }
        if read_balance(&self.balances, user) < collateral_amount {
            return Err(TokenError::InsufficientBalance);
        }
        let p0 = match self.lending {
            None => return Err(TokenError::NotInitialized),
            Some(p) => p,
        };
        let p1 = match accrue_pool(p0, self.now) {
            Err(e) => return Err(e),
            Ok(p) => p,
        };
        let liquidity = match pool_liquidity(p1) {
            Err(e) => return Err(e),
            Ok(v) => v,
        };
        if amount > liquidity {
            return Err(TokenError::InsufficientLiquidity);
        }
        let ub0 = match self.borrows.get(&user) {
            Some(ub) => *ub,
            None => UserBorrow {
                amount: 0,
                last_update_ledger: self.now,
                accrued_interest: 0,
                collateral_deposited: 0,
            },
        };
        let ub1 = match calculate_borrow_interest(ub0, p1, self.now) {
            Err(e) => return Err(e),
            Ok(ub) => ub,
        };
        proof {
            lemma_settle_borrow_wf(ub0, p1, self.now);
        }
        let debt = match ub1.amount.checked_add(ub1.accrued_interest) {
            None => return Err(TokenError::Overflow),
            Some(v) => v,
        };
        let total_debt = match debt.checked_add(amount) {
            None => return Err(TokenError::Overflow),
            Some(v) => v,
        };
        let total_collateral = match ub1.collateral_deposited.checked_add(collateral_amount) {
            None => return Err(TokenError::Overflow),
            Some(v) => v,
        };
        let scaled = match total_debt.checked_mul(10000) {
            None => return Err(TokenError::Overflow),
            Some(v) => v,
        };
        if !collateral_suffices(total_collateral, p1.collateral_factor, scaled) {
            return Err(TokenError::InsufficientCollateral);
        }
        let mut b = self.balances.clone();
        if let Err(e) = transfer_balance(&mut b, user, self.contract, collateral_amount) {
            return Err(e);
        }
        if let Err(e) = transfer_balance(&mut b, self.contract, user, amount) {
            return Err(e);
        }
        let p2 = match update_utilization_rate(
            LendingPool { total_borrowed: p1.total_borrowed + amount, ..p1 },
        ) {
            Err(e) => return Err(e),
            Ok(p) => p,
        };
        let ub2 = UserBorrow {
            amount: ub1.amount + amount,
            collateral_deposited: total_collateral,
            last_update_ledger: self.now,
            ..ub1
        };
        self.balances = b;
        self.lending = Some(p2);
        self.borrows.insert(user, ub2);
        self.emit_event(EventKind::Borrow, user, amount);
        Ok(())
    }

    /// Repays up to `amount` of `user`'s debt, interest first; returns what
    /// was repaid. Clearing the debt returns the collateral.
    pub fn repay(&mut self, user: AccountId, amount: i128) -> (r: Result<i128, TokenError>)
        requires
            old(self)@.wf(),
        ensures
            final(self)@.wf(),
            commits(r, repay_rule(old(self)@, user, amount), old(self)@, final(self)@),
    {
        if amount < 0 {
            return Err(TokenError::NegativeAmount);
        }
        if self.frozen.contains(&user) {
            return Err(TokenError::AccountFrozen);
        }
        if read_balance(&self.balances, user) < amount {
            return Err(TokenError::InsufficientBalance);
        }
        let p0 = match self.lending {
            None => return Err(TokenError::NotInitialized),
            Some(p) => p,
        };
        let p1 = match accrue_pool(p0, self.now) {
            Err(e) => return Err(e),
            Ok(p) => p,
        };
        let ub0 = match self.borrows.get(&user) {
            Some(ub) => *ub,
            None => return Err(TokenError::NoBorrow),
        };
        let ub1 = match calculate_borrow_interest(ub0, p1, self.now) {
            Err(e) => return Err(e),
            Ok(ub) => ub,
        };
        proof {
            lemma_settle_borrow_wf(ub0, p1, self.now);
        }
        let debt = match ub1.amount.checked_add(ub1.accrued_interest) {
            None => return Err(TokenError::Overflow),
            Some(v) => v,
        };
        let repaid = if amount > debt {
            debt
        } else {
            amount
        };
        let mut b = self.balances.clone();
        if let Err(e) = transfer_balance(&mut b, user, self.contract, repaid) {
            return Err(e);
        }
        let tb = match p1.total_borrowed.checked_sub(repaid) {
            None => return Err(TokenError::Overflow),
            Some(v) => v,
        };
        let p2 = match update_utilization_rate(LendingPool { total_borrowed: tb, ..p1 }) {
            Err(e) => return Err(e),
            Ok(p) => p,
        };
        let (pr, ac) = deduct_payment(ub1.amount, ub1.accrued_interest, repaid);
        let ub2 = UserBorrow {
            amount: pr,
            accrued_interest: ac,
            last_update_ledger: self.now,
            ..ub1
        };
        if let Err(e) = self.store_position(b, p2, user, ub2) {
            return Err(e);
        }
        self.emit_event(EventKind::Repay, user, repaid);
        Ok(repaid)
    }

    /// Liquidates part of an unhealthy position: the liquidator repays up to
    /// half the debt and receives that much collateral plus the penalty.
    /// Returns what was repaid.
    pub(crate) fn liquidate_position(
        &mut self,
        liquidator: AccountId,
        borrower: AccountId,
        repay_amount: i128,
    ) -> (r: Result<i128, TokenError>)
        requires
            old(self)@.wf(),
        ensures
            final(self)@.wf(),
            commits(
                r,
                liquidate_rule(old(self)@, liquidator, borrower, repay_amount),
                old(self)@,
                final(self)@,
            ),
    {
        if repay_amount < 0 {
            return Err(TokenError::NegativeAmount);
        }
        if self.frozen.contains(&liquidator) {
            return Err(TokenError::AccountFrozen);
        }
        if read_balance(&self.balances, liquidator) < repay_amount {
            return Err(TokenError::InsufficientBalance);
        }
        let p0 = match self.lending {
            None => return Err(TokenError::NotInitialized),
            Some(p) => p,
        };
        let p1 = match accrue_pool(p0, self.now) {
            Err(e) => return Err(e),
            Ok(p) => p,
        };
        let ub0 = match self.borrows.get(&borrower) {
            Some(ub) => *ub,
            None => return Err(TokenError::NoBorrow),
        };
        let ub1 = match calculate_borrow_interest(ub0, p1, self.now) {
            Err(e) => return Err(e),
            Ok(ub) => ub,
        };
        proof {
            lemma_settle_borrow_wf(ub0, p1, self.now);
        }
        let debt = match ub1.amount.checked_add(ub1.accrued_interest) {
            None => return Err(TokenError::Overflow),
            Some(v) => v,
        };
        let hf = match checked_health_factor(
            ub1.collateral_deposited,
            self.liquidation_threshold,
            debt,
        ) {
            Err(e) => return Err(e),
            Ok(v) => v,
        };
        if hf >= HEALTHY_FACTOR {
            return Err(TokenError::PositionHealthy);
        }
        let half = div_trunc(debt, 2);
        let repaid = if repay_amount > half {
            half
        } else {
            repay_amount
        };
        let penalty = match repaid.checked_mul(self.liquidation_penalty as i128) {
            None => return Err(TokenError::Overflow),
            Some(v) => v,
        };
        let seized = match repaid.checked_add(div_trunc(penalty, BASIS_POINTS)) {
            None => return Err(TokenError::Overflow),
            Some(v) => v,
        };
        if seized > ub1.collateral_deposited {
            return Err(TokenError::InsufficientCollateralToSeize);
        }
        proof {
            crate::math::lemma_tdiv_bounded(penalty as int, 10000);
        }
        let mut b = self.balances.clone();
        if let Err(e) = transfer_balance(&mut b, liquidator, self.contract, repaid) {
            return Err(e);
        }
        if let Err(e) = transfer_balance(&mut b, self.contract, liquidator, seized) {
            return Err(e);
        }
        let tb = match p1.total_borrowed.checked_sub(repaid) {
            None => return Err(TokenError::Overflow),
            Some(v) => v,
        };
        let p2 = match update_utilization_rate(LendingPool { total_borrowed: tb, ..p1 }) {
            Err(e) => return Err(e),
            Ok(p) => p,
        };
        let (pr, ac) = deduct_payment(ub1.amount, ub1.accrued_interest, repaid);
        let ub2 = UserBorrow {
            amount: pr,
            accrued_interest: ac,
            collateral_deposited: ub1.collateral_deposited - seized,
            last_update_ledger: self.now,
        };
        if let Err(e) = self.store_position(b, p2, borrower, ub2) {
            return Err(e);
        }
        self.emit_event(EventKind::Liquidate, liquidator, repaid);
        Ok(repaid)
    }

    /// Liquidates part of `borrower`'s unhealthy position on behalf of
    /// `liquidator`.
    pub fn liquidate(&mut self, liquidator: AccountId, borrower: AccountId, repay_amount: i128) -> (r:
        Result<(), TokenError>)
        requires
            old(self)@.wf(),
        ensures
            final(self)@.wf(),
            commits(
                r,
                without_value(liquidate_rule(old(self)@, liquidator, borrower, repay_amount)),
                old(self)@,
                final(self)@,
            ),
    {
        match self.liquidate_position(liquidator, borrower, repay_amount) {
            Err(e) => Err(e),
            Ok(_) => Ok(()),
        }
    }

    /// Adds `amount` of `user`'s balance to the collateral of their loan.
    pub fn add_collateral(&mut self, user: AccountId, amount: i128) -> (r: Result<(), TokenError>)
        requires
            old(self)@.wf(),
        ensures
            final(self)@.wf(),
            commits(r, add_collateral_rule(old(self)@, user, amount), old(self)@, final(self)@),
    {
        if amount < 0 {
            return Err(TokenError::NegativeAmount);
        }
        if self.frozen.contains(&user) {
            return Err(TokenError::AccountFrozen);
        }
        if read_balance(&self.balances, user) < amount {
            return Err(TokenError::InsufficientBalance);
        }
        let p0 = match self.lending {
            None => return Err(TokenError::NotInitialized),
            Some(p) => p,
        };
        let p1 = match accrue_pool(p0, self.now) {
            Err(e) => return Err(e),
            Ok(p) => p,
        };
        let ub = match self.borrows.get(&user) {
            Some(ub) => *ub,
            None => return Err(TokenError::NoBorrow),
        };
        let mut b = self.balances.clone();
        if let Err(e) = transfer_balance(&mut b, user, self.contract, amount) {
            return Err(e);
        }
        let c = match ub.collateral_deposited.checked_add(amount) {
            None => return Err(TokenError::Overflow),
            Some(v) => v,
        };
        self.balances = b;
        self.lending = Some(p1);
        self.borrows.insert(user, UserBorrow { collateral_deposited: c, ..ub });
        self.emit_event(EventKind::AddCollateral, user, amount);
        Ok(())
    }

    /// Returns `amount` of collateral to `user` if what remains still
    /// covers the debt.
    pub fn remove_collateral(&mut self, user: AccountId, amount: i128) -> (r: Result<(), TokenError>)
        requires
            old(self)@.wf(),
        ensures
            final(self)@.wf(),
            commits(r, remove_collateral_rule(old(self)@, user, amount), old(self)@, final(self)@),
    {
        if amount < 0 {
            return Err(TokenError::NegativeAmount);
        }
        if self.frozen.contains(&user) {
            return Err(TokenError::AccountFrozen);
        }
        let p0 = match self.lending {
            None => return Err(TokenError::NotInitialized),
            Some(p) => p,
        };
        let p1 = match accrue_pool(p0, self.now) {
            Err(e) => return Err(e),
            Ok(p) => p,
        };
        let ub = match self.borrows.get(&user) {
            Some(ub) => *ub,
            None => return Err(TokenError::NoBorrow),
        };
        let debt = match position_debt(ub, p1, self.now) {
            Err(e) => return Err(e),
            Ok(v) => v,
        };
        if amount > ub.collateral_deposited {
            return Err(TokenError::UnsafeCollateralRemoval);
        }
        let remaining = ub.collateral_deposited - amount;
        let scaled = match debt.checked_mul(10000) {
            None => return Err(TokenError::Overflow),
            Some(v) => v,
        };
        if !collateral_suffices(remaining, p1.collateral_factor, scaled) {
            return Err(TokenError::UnsafeCollateralRemoval);
        }
        let mut b = self.balances.clone();
        if let Err(e) = transfer_balance(&mut b, self.contract, user, amount) {
            return Err(e);
        }
        self.balances = b;
        self.lending = Some(p1);
        self.borrows.insert(user, UserBorrow { collateral_deposited: remaining, ..ub });
        self.emit_event(EventKind::RemoveCollateral, user, amount);
        Ok(())
    }
}

/// Whether `collateral * factor` reaches `scaled_debt`.
fn collateral_suffices(collateral: i128, factor: u32, scaled_debt: i128) -> (r: bool)
    requires
        collateral >= 0,
    ensures
        r == (collateral * factor >= scaled_debt),
{
    match collateral.checked_mul(factor as i128) {
        None => {
            assert(collateral * factor >= 0) by (nonlinear_arith)
                requires
                    collateral >= 0,
                    factor >= 0,
            ;
            true
        },
        Some(c) => c >= scaled_debt,
    }
}

/// Pending debt of a position, interest included.
fn position_debt(ub: UserBorrow, p: LendingPool, now: u32) -> (r: Result<i128, TokenError>)
    requires
        ub.last_update_ledger <= now,
    ensures
        r == current_debt(ub, p, now),
{
    let i = match checked_interest(ub.amount, p.borrow_rate, now - ub.last_update_ledger) {
        Err(e) => return Err(e),
        Ok(v) => v,
    };
    let d = match ub.amount.checked_add(ub.accrued_interest) {
        None => return Err(TokenError::Overflow),
        Some(v) => v,
    };
    match d.checked_add(i) {
        None => Err(TokenError::Overflow),
        Some(v) => Ok(v),
    }
}

proof fn lemma_current_debt_nonneg(ub: UserBorrow, p: LendingPool, now: u32)
    requires
        ub.wf(now),
    ensures
        current_debt(ub, p, now) is Ok ==> current_debt(ub, p, now)->Ok_0 >= ub.debt(),
{
    lemma_rate_product_nonneg(
        ub.amount as int,
        p.borrow_rate as int,
        now - ub.last_update_ledger,
        crate::math::INTEREST_DIVISOR as int,
    );
}


impl Token {
    pub fn get_lending_pool_info(&self) -> (r: Result<LendingPool, TokenError>)
        ensures
            r == (match self@.lending {
                Some(p) => Ok::<LendingPool, TokenError>(p),
                None => Err(TokenError::NotInitialized),
            }),
    {
        match self.lending {
            Some(p) => Ok(p),
            None => Err(TokenError::NotInitialized),
        }
    }

    pub fn get_user_supply_info(&self, user: AccountId) -> (r: Option<UserSupply>)
        ensures
            r == (if self@.supplies.contains_key(user) {
                Some(self@.supplies[user])
            } else {
                None
            }),
    {
        match self.supplies.get(&user) {
            Some(us) => Some(*us),
            None => None,
        }
    }

    pub fn get_user_borrow_info(&self, user: AccountId) -> (r: Option<UserBorrow>)
        ensures
            r == (if self@.borrows.contains_key(user) {
                Some(self@.borrows[user])
            } else {
                None
            }),
    {
        match self.borrows.get(&user) {
            Some(ub) => Some(*ub),
            None => None,
        }
    }

    /// Health factor of `user`'s position: collateral times the
    /// liquidation threshold over debt times 100. Below 100 the position
    /// can be liquidated.
    pub fn get_user_health_factor(&self, user: AccountId) -> (r: Result<i128, TokenError>)
        requires
            self@.wf(),
        ensures
            r == health_query(self@, user),
    {
        let ub = match self.borrows.get(&user) {
            None => return Ok(i128::MAX),
            Some(ub) => *ub,
        };
        let p = match self.lending {
            None => return Err(TokenError::NotInitialized),
            Some(p) => p,
        };
        let debt = match position_debt(ub, p, self.now) {
            Err(e) => return Err(e),
            Ok(v) => v,
        };
        proof {
            lemma_current_debt_nonneg(ub, p, self.now);
        }
        checked_health_factor(ub.collateral_deposited, self.liquidation_threshold, debt)
    }

    pub fn get_pending_supply_interest(&self, user: AccountId) -> (r: Result<i128, TokenError>)
        requires
            self@.wf(),
        ensures
            r == pending_supply_interest(self@, user),
    {
        let us = match self.supplies.get(&user) {
            None => return Ok(0),
            Some(us) => *us,
        };
        match self.lending {
            None => Err(TokenError::NotInitialized),
            Some(p) => checked_interest(us.amount, p.supply_rate, self.now - us.last_update_ledger),
        }
    }

    pub fn get_pending_borrow_interest(&self, user: AccountId) -> (r: Result<i128, TokenError>)
        requires
            self@.wf(),
        ensures
            r == pending_borrow_interest(self@, user),
    {
        let ub = match self.borrows.get(&user) {
            None => return Ok(0),
            Some(ub) => *ub,
        };
        match self.lending {
            None => Err(TokenError::NotInitialized),
            Some(p) => checked_interest(ub.amount, p.borrow_rate, self.now - ub.last_update_ledger),
        }
    }

    /// (supplied with interest, debt recorded, collateral, health factor)
    /// of `user`.
    pub fn get_user_position_summary(&self, user: AccountId) -> (r: Result<
        (i128, i128, i128, i128),
        TokenError,
    >)
        requires
            self@.wf(),
        ensures
            r == position_summary(self@, user),
    {
        let supplied = match self.supplies.get(&user) {
            None => 0,
            Some(us) => match us.amount.checked_add(us.accrued_interest) {
                None => return Err(TokenError::Overflow),
                Some(v) => v,
            },
        };
        let (borrowed, collateral) = match self.borrows.get(&user) {
            None => (0, 0),
            Some(ub) => match ub.amount.checked_add(ub.accrued_interest) {
                None => return Err(TokenError::Overflow),
                Some(v) => (v, ub.collateral_deposited),
            },
        };
        match self.get_user_health_factor(user) {
            Err(e) => Err(e),
            Ok(h) => Ok((supplied, borrowed, collateral, h)),
        }
    }

    /// Sets the market's supply and borrow rates; administrator only.
    pub fn update_lending_rates(&mut self, caller: AccountId, new_supply_rate: u32, new_borrow_rate: u32) -> (r:
        Result<(), TokenError>)
        requires
            old(self)@.wf(),
        ensures
            final(self)@.wf(),
            commits(
                r,
                update_lending_rates_rule(old(self)@, caller, new_supply_rate, new_borrow_rate),
                old(self)@,
                final(self)@,
            ),
    {
        let admin = match self.require_admin(caller) {
            Err(e) => return Err(e),
            Ok(a) => a,
        };
        let p = match self.lending {
            None => return Err(TokenError::NotInitialized),
            Some(p) => p,
        };
        self.lending = Some(
            LendingPool { supply_rate: new_supply_rate, borrow_rate: new_borrow_rate, ..p },
        );
        self.emit_event(EventKind::UpdateLendingRates, admin, new_supply_rate as i128);
        Ok(())
    }

    /// Sets the liquidation threshold and penalty; administrator only.
    pub fn update_liquidation_params(&mut self, caller: AccountId, threshold: u32, penalty: u32) -> (r:
        Result<(), TokenError>)
        requires
            old(self)@.wf(),
        ensures
            final(self)@.wf(),
            commits(
                r,
                update_liquidation_params_rule(old(self)@, caller, threshold, penalty),
                old(self)@,
                final(self)@,
            ),
    {
        let admin = match self.require_admin(caller) {
            Err(e) => return Err(e),
            Ok(a) => a,
        };
        self.liquidation_threshold = threshold;
        self.liquidation_penalty = penalty;
        self.emit_event(EventKind::UpdateLiquidationParams, admin, threshold as i128);
        Ok(())
    }

    /// Sets the collateral factor; administrator only.
    pub fn update_collateral_factor(&mut self, caller: AccountId, new_factor: u32) -> (r: Result<
        (),
        TokenError,
    >)
        requires
            old(self)@.wf(),
        ensures
            final(self)@.wf(),
            commits(
                r,
                update_collateral_factor_rule(old(self)@, caller, new_factor),
                old(self)@,
                final(self)@,
            ),
    {
        let admin = match self.require_admin(caller) {
            Err(e) => return Err(e),
            Ok(a) => a,
        };
        let p = match self.lending {
            None => return Err(TokenError::NotInitialized),
            Some(p) => p,
        };
        self.lending = Some(LendingPool { collateral_factor: new_factor, ..p });
        self.emit_event(EventKind::UpdateCollateralFactor, admin, new_factor as i128);
        Ok(())
    }

    /// Resets both rates from the jump-rate curve at the current
    /// utilisation; administrator only.
    pub fn update_dynamic_rates(&mut self, caller: AccountId) -> (r: Result<(), TokenError>)
        requires
            old(self)@.wf(),
        ensures
            final(self)@.wf(),
            commits(r, update_dynamic_rates_rule(old(self)@, caller), old(self)@, final(self)@),
    {
        let admin = match self.require_admin(caller) {
            Err(e) => return Err(e),
            Ok(a) => a,
        };
        let p = match self.lending {
            None => return Err(TokenError::NotInitialized),
            Some(p) => p,
        };
        let u = p.utilization_rate as u128;
        let br: u128 = if u <= 8000 {
            200 + u * 500 / 10000
        } else {
            200 + 8000 * 500 / 10000 + (u - 8000) * 10000 / 10000
        };
        if p.reserve_factor > 10000 {
            return Err(TokenError::InvalidParameter);
        }
        proof {
            assert(br * u <= 0x1_0000_0000 * 0x1_0000_0000) by (nonlinear_arith)
                requires
                    br <= 0x1_0000_0000,
                    u <= 0x1_0000_0000,
            ;
            let x = br * u / 10000;
            assert(x * (10000 - p.reserve_factor) <= 0x1_0000_0000 * 0x1_0000_0000) by (
            nonlinear_arith)
                requires
                    x <= 0x1_0000_0000 * 0x1_0000_0000 / 10000,
                    p.reserve_factor <= 10000,
            ;
        }
        let sr: u128 = (br * u / 10000) * (10000 - p.reserve_factor as u128) / 10000;
        if sr > u32::MAX as u128 {
            return Err(TokenError::Overflow);
        }
        self.lending = Some(LendingPool { borrow_rate: br as u32, supply_rate: sr as u32, ..p });
        self.emit_event(EventKind::DynamicRateUpdate, admin, br as i128);
        Ok(())
    }

    /// Pays `amount` of the reserves to the administrator.
    pub fn withdraw_reserves(&mut self, caller: AccountId, amount: i128) -> (r: Result<(), TokenError>)
        requires
            old(self)@.wf(),
        ensures
            final(self)@.wf(),
            commits(r, withdraw_reserves_rule(old(self)@, caller, amount), old(self)@, final(self)@),
    {
        let admin = match self.require_admin(caller) {
            Err(e) => return Err(e),
            Ok(a) => a,
        };
        if amount < 0 {
            return Err(TokenError::NegativeAmount);
        }
        let p = match self.lending {
            None => return Err(TokenError::NotInitialized),
            Some(p) => p,
        };
        let earned: i128 = if p.total_supplied > p.total_borrowed {
            match p.total_supplied.checked_sub(p.total_borrowed) {
                None => return Err(TokenError::Overflow),
                Some(v) => v,
            }
        } else {
            0
        };
        let scaled = match earned.checked_mul(p.reserve_factor as i128) {
            None => return Err(TokenError::Overflow),
            Some(v) => v,
        };
        if amount > div_trunc(scaled, BASIS_POINTS) {
            return Err(TokenError::InsufficientReserves);
        }
        let mut b = self.balances.clone();
        if let Err(e) = transfer_balance(&mut b, self.contract, admin, amount) {
            return Err(e);
        }
        self.balances = b;
        self.emit_event(EventKind::WithdrawReserves, admin, amount);
        Ok(())
    }

    /// (total supplied, total borrowed, utilisation, risk score: 100 above
    /// 90% utilisation, 75 above 80%, 50 above 60%, else 25);
    /// administrator only.
    pub fn get_protocol_risk_metrics(&self, caller: AccountId) -> (r: Result<
        (i128, i128, u32, u32),
        TokenError,
    >)
        ensures
            r == risk_metrics(self@, caller),
    {
        if let Err(e) = self.require_admin(caller) {
            return Err(e);
        }
        let p = match self.lending {
            None => return Err(TokenError::NotInitialized),
            Some(p) => p,
        };
        let u = p.utilization_rate;
        let score: u32 = if u > 9000 {
            100
        } else if u > 8000 {
            75
        } else if u > 6000 {
            50
        } else {
            25
        };
        Ok((p.total_supplied, p.total_borrowed, u, score))
    }

    /// Pays the protocol account's whole balance to the administrator and
    /// zeroes the market's totals; returns the amount paid.
    pub fn emergency_withdraw_lending_pool(&mut self, caller: AccountId) -> (r: Result<
        i128,
        TokenError,
    >)
        requires
            old(self)@.wf(),
        ensures
            final(self)@.wf(),
            commits(r, emergency_withdraw_lending_rule(old(self)@, caller), old(self)@, final(self)@),
    {
        let admin = match self.require_admin(caller) {
            Err(e) => return Err(e),
            Ok(a) => a,
        };
        let balance = read_balance(&self.balances, self.contract);
        if balance > 0 {
            let mut b = self.balances.clone();
            if let Err(e) = transfer_balance(&mut b, self.contract, admin, balance) {
                return Err(e);
            }
            self.balances = b;
            if let Some(p) = self.lending {
                self.lending = Some(
                    LendingPool { total_supplied: 0, total_borrowed: 0, utilization_rate: 0, ..p },
                );
            }
            self.emit_event(EventKind::EmergencyWithdrawLending, admin, balance);
        }
        Ok(balance)
    }

    /// Accrues the market's interest up to now.
    pub fn accrue_lending_interest_manual(&mut self) -> (r: Result<(), TokenError>)
        requires
            old(self)@.wf(),
        ensures
            final(self)@.wf(),
            commits(r, accrue_manual_rule(old(self)@), old(self)@, final(self)@),
    {
        let p = match self.lending {
            None => return Err(TokenError::NotInitialized),
            Some(p) => p,
        };
        let p1 = match accrue_pool(p, self.now) {
            Err(e) => return Err(e),
            Ok(p) => p,
        };
        self.lending = Some(p1);
        let contract = self.contract;
        self.emit_event(EventKind::ManualInterestAccrual, contract, 0);
        Ok(())
    }

    /// How much more `user` could borrow against `collateral_amount`.
    pub fn get_max_borrowable_amount(&self, user: AccountId, collateral_amount: i128) -> (r: Result<
        i128,
        TokenError,
    >)
        requires
            self@.wf(),
        ensures
            r == max_borrowable(self@, user, collateral_amount),
    {
        let p = match self.lending {
            None => return Err(TokenError::NotInitialized),
            Some(p) => p,
        };
        let debt = match self.borrows.get(&user) {
            None => 0,
            Some(ub) => match position_debt(*ub, p, self.now) {
                Err(e) => return Err(e),
                Ok(v) => v,
            },
        };
        proof {
            if self@.borrows.contains_key(user) {
                lemma_current_debt_nonneg(self@.borrows[user], p, self@.now);
            }
        }
        let scaled = match collateral_amount.checked_mul(p.collateral_factor as i128) {
            None => return Err(TokenError::Overflow),
            Some(v) => v,
        };
        let max_total = div_trunc(scaled, BASIS_POINTS);
        proof {
            crate::math::lemma_tdiv_bounded(scaled as int, 10000);
        }
        if max_total > debt {
            Ok(max_total - debt)
        } else {
            Ok(0)
        }
    }

    /// Unborrowed funds of the pool.
    pub fn get_available_liquidity(&self) -> (r: Result<i128, TokenError>)
        ensures
            r == (match self@.lending {
                Some(p) => liquidity_of(p),
                None => Err(TokenError::NotInitialized),
            }),
    {
        match self.lending {
            None => Err(TokenError::NotInitialized),
            Some(p) => pool_liquidity(p),
        }
    }

    /// The accounts among `users` that can be liquidated; administrator
    /// only.
    pub fn find_liquidatable_positions(&self, caller: AccountId, users: &Vec<AccountId>) -> (r:
        Result<Vec<AccountId>, TokenError>)
        requires
            self@.wf(),
        ensures
            match find_liquidatable_rule(self@, caller, users@) {
                Ok(found) => r is Ok && r->Ok_0@ == found,
                Err(e) => r is Err && r->Err_0 == e,
            },
    {
        if let Err(e) = self.require_admin(caller) {
            return Err(e);
        }
        let mut found: Vec<AccountId> = Vec::new();
        let mut i: usize = 0;
        while i < users.len()
            invariant
                0 <= i <= users.len(),
                self@.wf(),
                admin_check(self@, caller) is Ok,
                liquidatable_among(self@, users@.subrange(0, i as int)) == Ok::<
                    Seq<AccountId>,
                    TokenError,
                >(found@),
            decreases users.len() - i,
        {
            let user = users[i];
            proof {
                let next = users@.subrange(0, i + 1);
                assert(next.drop_last() =~= users@.subrange(0, i as int));
                assert(next.last() == user);
            }
            match self.get_user_health_factor(user) {
                Err(e) => {
                    proof {
                        let next = users@.subrange(0, i + 1);
                        assert(next.drop_last() =~= users@.subrange(0, i as int));
                        assert(liquidatable_among(self@, next) == Err::<Seq<AccountId>, TokenError>(
                            e,
                        ));
                        lemma_liquidatable_error_stays(self@, users@, i as int + 1);
                    }
                    return Err(e);
                },
                Ok(h) => {
                    if h < HEALTHY_FACTOR {
                        found.push(user);
                    }
                },
            }
            i = i + 1;
        }
        proof {
            assert(users@.subrange(0, users@.len() as int) =~= users@);
        }
        Ok(found)
    }

    /// Liquidates each unhealthy target in turn, skipping healthy ones and
    /// those whose liquidation fails, then announces the total repaid.
    pub fn batch_liquidate(&mut self, liquidator: AccountId, targets: &Vec<(AccountId, i128)>) -> (r:
        Result<(), TokenError>)
        requires
            old(self)@.wf(),
        ensures
            final(self)@.wf(),
            commits(r, batch_liquidate_rule(old(self)@, liquidator, targets@), old(self)@, final(self)@),
    {
        if targets.len() > MAX_BATCH_TARGETS {
            return Err(TokenError::TooManyTargets);
        }
        let ghost start = self@;
        let mut total: i128 = 0;
        let mut i: usize = 0;
        while i < targets.len()
            invariant
                0 <= i <= targets.len(),
                self@.wf(),
                total >= 0,
                batch_run(start, liquidator, targets@.subrange(0, i as int)) == (self@, total as int),
            decreases targets.len() - i,
        {
            let (borrower, amount) = targets[i];
            proof {
                let next = targets@.subrange(0, i + 1);
                assert(next.drop_last() =~= targets@.subrange(0, i as int));
                assert(next.last() == (borrower, amount));
            }
            let healthy = match self.get_user_health_factor(borrower) {
                Ok(h) => h >= HEALTHY_FACTOR,
                Err(_) => true,
            };
            if !healthy {
                let ghost before = self@;
                match self.liquidate_position(liquidator, borrower, amount) {
                    Ok(repaid) => {
                        proof {
                            lemma_liquidation_bounds(before, liquidator, borrower, amount);
                        }
                        total = if total > i128::MAX - repaid {
                            i128::MAX
                        } else {
                            total + repaid
                        };
                    },
                    Err(_) => {},
                }
            }
            i = i + 1;
        }
        proof {
            assert(targets@.subrange(0, targets@.len() as int) =~= targets@);
        }
        self.emit_event(EventKind::BatchLiquidate, liquidator, total);
        Ok(())
    }
}

/// Once the scan fails on a prefix it fails on every longer prefix.
proof fn lemma_liquidatable_error_stays(s: TokenState, users: Seq<AccountId>, n: int)
    requires
        0 < n <= users.len(),
        liquidatable_among(s, users.subrange(0, n)) is Err,
    ensures
        liquidatable_among(s, users) == liquidatable_among(s, users.subrange(0, n)),
    decreases users.len() - n,
{
    if n == users.len() {
        assert(users.subrange(0, n) =~= users);
    } else {
        let next = users.subrange(0, n + 1);
        assert(next.drop_last() =~= users.subrange(0, n));
        lemma_liquidatable_error_stays(s, users, n + 1);
    }
}

/// A liquidation never seizes more collateral than the position holds, and
/// never repays more than half of its debt (nor more than requested).
pub proof fn lemma_liquidation_bounds(
    s: TokenState,
    liquidator: AccountId,
    borrower: AccountId,
    repay_amount: i128,
)
    requires
        s.wf(),
        liquidate_rule(s, liquidator, borrower, repay_amount) is Ok,
    ensures
        ({
            let p1 = accrue(s.lending->Some_0, s.now)->Ok_0;
            let ub1 = settle_borrow(s.borrows[borrower], p1, s.now)->Ok_0;
            let repaid = liquidate_rule(s, liquidator, borrower, repay_amount)->Ok_0.1;
            &&& 0 <= repaid <= repay_amount
            &&& repaid <= ub1.debt() / 2
            &&& liquidation_seizure(repaid as int, s.liquidation_penalty as int)
                <= ub1.collateral_deposited
        }),
{
    let p1 = accrue(s.lending->Some_0, s.now)->Ok_0;
    lemma_settle_borrow_wf(s.borrows[borrower], p1, s.now);
}


/// Accruing a second time at the same tick changes nothing.
pub proof fn lemma_accrue_idempotent(p: LendingPool, now: u32)
    requires
        p.last_update_ledger <= now,
        accrue(p, now) is Ok,
    ensures
        accrue(accrue(p, now)->Ok_0, now) == accrue(p, now),
{
}

/// `debt * 10000 <= collateral * factor`: the collateral covers the debt at
/// the collateral factor.
pub open spec fn collateral_covers(ub: UserBorrow, factor: u32) -> bool {
    ub.debt() * 10000 <= ub.collateral_deposited * factor
}

/// After a borrow the collateral covers the debt at the collateral factor.
pub proof fn lemma_borrow_covers(s: TokenState, user: AccountId, amount: i128, collateral_amount: i128)
    requires
        s.wf(),
        borrow_rule(s, user, amount, collateral_amount) is Ok,
    ensures
        ({
            let t = borrow_rule(s, user, amount, collateral_amount)->Ok_0.0;
            &&& t.borrows.contains_key(user)
            &&& collateral_covers(t.borrows[user], t.lending->Some_0.collateral_factor)
        }),
{
    let p1 = accrue(s.lending->Some_0, s.now)->Ok_0;
    let ub0 = borrow_record(s, user);
    assert(ub0.wf(s.now));
    lemma_settle_borrow_wf(ub0, p1, s.now);
    let ub1 = settle_borrow(ub0, p1, s.now)->Ok_0;
    let t = borrow_rule(s, user, amount, collateral_amount)->Ok_0.0;
    assert(t.borrows[user].debt() == ub1.debt() + amount);
}

/// After a collateral removal the remaining collateral covers the debt,
/// interest pending included, at the collateral factor.
pub proof fn lemma_remove_collateral_covers(s: TokenState, user: AccountId, amount: i128)
    requires
        s.wf(),
        remove_collateral_rule(s, user, amount) is Ok,
    ensures
        ({
            let t = remove_collateral_rule(s, user, amount)->Ok_0.0;
            let ub = t.borrows[user];
            let debt = current_debt(ub, t.lending->Some_0, t.now)->Ok_0;
            &&& t.borrows.contains_key(user)
            &&& current_debt(ub, t.lending->Some_0, t.now) is Ok
            &&& debt * 10000 <= ub.collateral_deposited * t.lending->Some_0.collateral_factor
            &&& collateral_covers(ub, t.lending->Some_0.collateral_factor)
        }),
{
    let p1 = accrue(s.lending->Some_0, s.now)->Ok_0;
    let ub0 = s.borrows[user];
    lemma_current_debt_nonneg(ub0, p1, s.now);
    let t = remove_collateral_rule(s, user, amount)->Ok_0.0;
    let ub = t.borrows[user];
    assert(current_debt(ub, p1, s.now) == current_debt(ub0, p1, s.now));
    let debt = current_debt(ub0, p1, s.now)->Ok_0;
    assert(ub.debt() * 10000 <= debt * 10000);
}

/// A repayment keeps a covered position covered: if the collateral covered
/// the debt once interest was settled, it still covers what remains.
pub proof fn lemma_repay_keeps_cover(s: TokenState, user: AccountId, amount: i128)
    requires
        s.wf(),
        repay_rule(s, user, amount) is Ok,
        collateral_covers(
            settle_borrow(
                s.borrows[user],
                accrue(s.lending->Some_0, s.now)->Ok_0,
                s.now,
            )->Ok_0,
            s.lending->Some_0.collateral_factor,
        ),
    ensures
        ({
            let t = repay_rule(s, user, amount)->Ok_0.0;
            t.borrows.contains_key(user) ==> collateral_covers(
                t.borrows[user],
                t.lending->Some_0.collateral_factor,
            )
        }),
{
    let p1 = accrue(s.lending->Some_0, s.now)->Ok_0;
    lemma_settle_borrow_wf(s.borrows[user], p1, s.now);
    let ub1 = settle_borrow(s.borrows[user], p1, s.now)->Ok_0;
    let t = repay_rule(s, user, amount)->Ok_0.0;
    if t.borrows.contains_key(user) {
        let ub = t.borrows[user];
        assert(ub.collateral_deposited == ub1.collateral_deposited);
        assert(ub.debt() <= ub1.debt());
    }
}

/// Adding collateral keeps a covered position covered.
pub proof fn lemma_add_collateral_keeps_cover(s: TokenState, user: AccountId, amount: i128)
    requires
        s.wf(),
        s.lending is Some,
        add_collateral_rule(s, user, amount) is Ok,
        collateral_covers(s.borrows[user], s.lending->Some_0.collateral_factor),
    ensures
        ({
            let t = add_collateral_rule(s, user, amount)->Ok_0.0;
            collateral_covers(t.borrows[user], t.lending->Some_0.collateral_factor)
        }),
{
    let ub0 = s.borrows[user];
    let t = add_collateral_rule(s, user, amount)->Ok_0.0;
    let ub = t.borrows[user];
    let f = s.lending->Some_0.collateral_factor as int;
    assert(ub0.collateral_deposited * f <= ub.collateral_deposited * f) by (nonlinear_arith)
        requires
            ub0.collateral_deposited <= ub.collateral_deposited,
            f >= 0,
    ;
}

} // verus!
