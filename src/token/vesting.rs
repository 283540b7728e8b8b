//! The vesting engine: linear grants with an optional cliff. Granted funds
//! are credited at creation and the beneficiary stays frozen until the
//! grant is fully claimed or revoked.
use vstd::prelude::*;
use crate::error::TokenError;
use crate::ledger::{move_funds, read_balance, transfer_balance};
use crate::math::{claimable, div_trunc, vested, vesting_overflows};
use crate::token::{admin_check, commits, Token, TokenState};
use crate::types::{AccountId, EventKind, VestingSchedule};

verus! {

/// What `beneficiary` may claim now; zero without a schedule.
pub open spec fn claimable_query(s: TokenState, beneficiary: AccountId) -> Result<i128, TokenError> {
    if !s.vesting.contains_key(beneficiary) {
        Ok(0)
    } else if vesting_overflows(s.vesting[beneficiary], s.now as int) {
        Err(TokenError::Overflow)
    } else {
        Ok(claimable(s.vesting[beneficiary], s.now as int) as i128)
    }
}

pub open spec fn create_vesting_rule(
    s: TokenState,
    caller: AccountId,
    beneficiary: AccountId,
    amount: i128,
    start_ledger: u32,
    cliff_ledger: u32,
    end_ledger: u32,
) -> Result<(TokenState, ()), TokenError> {
    match admin_check(s, caller) {
        Err(e) => Err(e),
        Ok(admin) => if amount < 0 {
            Err(TokenError::NegativeAmount)
        } else if end_ledger <= start_ledger {
            Err(TokenError::InvalidSchedule)
        } else if cliff_ledger > 0 && cliff_ledger < start_ledger {
            Err(TokenError::InvalidSchedule)
        } else if s.balance(admin) < amount {
            Err(TokenError::InsufficientBalance)
        } else {
            match move_funds(s.balances, admin, beneficiary, amount as int) {
                Err(e) => Err(e),
                Ok(b) => {
                    let schedule = VestingSchedule {
                        beneficiary,
                        total_amount: amount,
                        claimed_amount: 0,
                        start_ledger,
                        cliff_ledger,
                        end_ledger,
                    };
                    Ok(
                        (TokenState {
                            balances: b,
                            vesting: s.vesting.insert(beneficiary, schedule),
                            frozen: s.frozen.insert(beneficiary),
                            ..s
                        }.emit(EventKind::CreateVesting, beneficiary, amount as int), ()),
                    )
                },
            }
        },
    }
}

pub open spec fn claim_vesting_rule(s: TokenState, beneficiary: AccountId) -> Result<
    (TokenState, i128),
    TokenError,
> {
    match claimable_query(s, beneficiary) {
        Err(e) => Err(e),
        Ok(c) => if c <= 0 {
            Err(TokenError::NothingToClaim)
        } else {
            let sched = s.vesting[beneficiary];
            let claimed = (sched.claimed_amount + c) as i128;
            let t = if claimed >= sched.total_amount {
                TokenState {
                    vesting: s.vesting.remove(beneficiary),
                    frozen: s.frozen.remove(beneficiary),
                    ..s
                }
            } else {
                TokenState {
                    vesting: s.vesting.insert(
                        beneficiary,
                        VestingSchedule { claimed_amount: claimed, ..sched },
                    ),
                    ..s
                }
            };
            Ok((t.emit(EventKind::ClaimVesting, beneficiary, c as int), c))
        },
    }
}

pub open spec fn revoke_vesting_rule(s: TokenState, caller: AccountId, beneficiary: AccountId) -> Result<
    (TokenState, ()),
    TokenError,
> {
    match admin_check(s, caller) {
        Err(e) => Err(e),
        Ok(admin) => if !s.vesting.contains_key(beneficiary) {
            Err(TokenError::NoVestingSchedule)
        } else {
            let sched = s.vesting[beneficiary];
            let unclaimed = sched.total_amount - sched.claimed_amount;
            let moved = if unclaimed > 0 {
                move_funds(s.balances, beneficiary, admin, unclaimed)
            } else {
                Ok(s.balances)
            };
            match moved {
                Err(e) => Err(e),
                Ok(b) => Ok(
                    (TokenState {
                        balances: b,
                        vesting: s.vesting.remove(beneficiary),
                        frozen: s.frozen.remove(beneficiary),
                        ..s
                    }.emit(EventKind::RevokeVesting, beneficiary, unclaimed), ()),
                ),
            }
        },
    }
}

/// The vested part of a well-formed schedule never exceeds its total and
/// never decreases as time advances.
proof fn lemma_vested_monotone(s: VestingSchedule, t1: int, t2: int)
    requires
        s.wf(),
        t1 <= t2,
    ensures
        0 <= vested(s, t1) <= vested(s, t2) <= s.total_amount,
{
    let d = s.end_ledger - s.start_ledger;
    let total = s.total_amount as int;
    if s.start_ledger <= t1 < s.end_ledger {
        let x1 = t1 - s.start_ledger;
        assert(0 <= total * x1 / d <= total) by (nonlinear_arith)
            requires
                total >= 0,
                0 <= x1 < d,
        ;
    }
    if s.start_ledger <= t2 < s.end_ledger {
        let x2 = t2 - s.start_ledger;
        assert(0 <= total * x2 / d <= total) by (nonlinear_arith)
            requires
                total >= 0,
                0 <= x2 < d,
        ;
    }
    if s.start_ledger <= t1 && t2 < s.end_ledger {
        let x1 = t1 - s.start_ledger;
        let x2 = t2 - s.start_ledger;
        assert(total * x1 / d <= total * x2 / d) by (nonlinear_arith)
            requires
                total >= 0,
                0 <= x1 <= x2,
                d > 0,
        ;
    }
}

/// What a well-formed schedule lets its beneficiary claim lies between zero
/// and the unclaimed remainder at every time, never decreases as time
/// advances, and from the end (and the cliff, which may come later) on
/// equals the unclaimed remainder.
pub proof fn lemma_claimable_bounds(s: VestingSchedule, t1: int, t2: int)
    requires
        s.wf(),
        t1 <= t2,
    ensures
        0 <= claimable(s, t1) <= s.total_amount - s.claimed_amount,
        claimable(s, t1) <= claimable(s, t2),
        t1 >= s.end_ledger && t1 >= s.cliff_ledger ==> claimable(s, t1) == s.total_amount
            - s.claimed_amount,
{
    lemma_vested_monotone(s, t1, t2);
}

impl Token {
    /// What `beneficiary` may claim now.
    pub fn get_claimable_vesting(&self, beneficiary: AccountId) -> (r: Result<i128, TokenError>)
        requires
            self@.wf(),
        ensures
            r == claimable_query(self@, beneficiary),
    {
        let s = match self.vesting.get(&beneficiary) {
            None => return Ok(0),
            Some(s) => *s,
        };
        let now = self.now;
        proof {
            lemma_vested_monotone(s, now as int, now as int);
        }
        if now < s.start_ledger || (s.cliff_ledger > 0 && now < s.cliff_ledger) {
            return Ok(0);
        }
        let vested_now: i128 = if now >= s.end_ledger {
            s.total_amount
        } else {
            let elapsed = (now - s.start_ledger) as i128;
            let duration = (s.end_ledger - s.start_ledger) as i128;
            match s.total_amount.checked_mul(elapsed) {
                None => return Err(TokenError::Overflow),
                Some(p) => div_trunc(p, duration),
            }
        };
        if vested_now <= s.claimed_amount {
            Ok(0)
        } else {
            Ok(vested_now - s.claimed_amount)
        }
    }

    pub fn get_vesting_info(&self, beneficiary: AccountId) -> (r: Option<VestingSchedule>)
        ensures
            r == (if self@.vesting.contains_key(beneficiary) {
                Some(self@.vesting[beneficiary])
            } else {
                None
            }),
    {
        match self.vesting.get(&beneficiary) {
            Some(s) => Some(*s),
            None => None,
        }
    }

    /// Grants `amount` from the administrator to `beneficiary`, vesting
    /// linearly from `start_ledger` to `end_ledger` after an optional
    /// cliff, and freezes the beneficiary. An existing schedule of the
    /// beneficiary is replaced.
    pub fn create_vesting(
        &mut self,
        caller: AccountId,
        beneficiary: AccountId,
        amount: i128,
        start_ledger: u32,
        cliff_ledger: u32,
        end_ledger: u32,
    ) -> (r: Result<(), TokenError>)
        requires
            old(self)@.wf(),
        ensures
            final(self)@.wf(),
            commits(
                r,
                create_vesting_rule(
                    old(self)@,
                    caller,
                    beneficiary,
                    amount,
                    start_ledger,
                    cliff_ledger,
                    end_ledger,
                ),
                old(self)@,
                final(self)@,
            ),
    {
        let admin = match self.require_admin(caller) {
            Err(e) => return Err(e),
            Ok(a) => a,
        };
        if amount < 0 {
            return Err(TokenError::NegativeAmount);
        }
        if end_ledger <= start_ledger {
            return Err(TokenError::InvalidSchedule);
        }
        if cliff_ledger > 0 && cliff_ledger < start_ledger {
            return Err(TokenError::InvalidSchedule);
        }
        if read_balance(&self.balances, admin) < amount {
            return Err(TokenError::InsufficientBalance);
        }
        let mut b = self.balances.clone();
        if let Err(e) = transfer_balance(&mut b, admin, beneficiary, amount) {
            return Err(e);
        }
        let schedule = VestingSchedule {
            beneficiary,
            total_amount: amount,
            claimed_amount: 0,
            start_ledger,
            cliff_ledger,
            end_ledger,
        };
        self.balances = b;
        self.vesting.insert(beneficiary, schedule);
        self.frozen.insert(beneficiary);
        self.emit_event(EventKind::CreateVesting, beneficiary, amount);
        Ok(())
    }

    /// Records the claim of what has vested; once everything is claimed the
    /// schedule is removed and the beneficiary unfrozen. Returns the amount
    /// claimed.
    pub fn claim_vesting(&mut self, beneficiary: AccountId) -> (r: Result<i128, TokenError>)
        requires
            old(self)@.wf(),
        ensures
            final(self)@.wf(),
            commits(r, claim_vesting_rule(old(self)@, beneficiary), old(self)@, final(self)@),
    {
        let c = match self.get_claimable_vesting(beneficiary) {
            Err(e) => return Err(e),
            Ok(c) => c,
        };
        if c <= 0 {
            return Err(TokenError::NothingToClaim);
        }
        let sched = match self.vesting.get(&beneficiary) {
            Some(s) => *s,
            None => return Err(TokenError::NothingToClaim),
        };
        proof {
            lemma_claimable_bounds(sched, self@.now as int, self@.now as int);
        }
        let claimed = sched.claimed_amount + c;
        if claimed >= sched.total_amount {
            self.vesting.remove(&beneficiary);
            self.frozen.remove(&beneficiary);
        } else {
            self.vesting.insert(beneficiary, VestingSchedule { claimed_amount: claimed, ..sched });
        }
        self.emit_event(EventKind::ClaimVesting, beneficiary, c);
        Ok(c)
    }

    /// Cancels `beneficiary`'s schedule, returning the unclaimed remainder
    /// to the administrator and unfreezing the beneficiary.
    pub fn revoke_vesting(&mut self, caller: AccountId, beneficiary: AccountId) -> (r: Result<
        (),
        TokenError,
    >)
        requires
            old(self)@.wf(),
        ensures
            final(self)@.wf(),
            commits(r, revoke_vesting_rule(old(self)@, caller, beneficiary), old(self)@, final(self)@),
    {
        let admin = match self.require_admin(caller) {
            Err(e) => return Err(e),
            Ok(a) => a,
        };
        let sched = match self.vesting.get(&beneficiary) {
            None => return Err(TokenError::NoVestingSchedule),
            Some(s) => *s,
        };
        let unclaimed = sched.total_amount - sched.claimed_amount;
        let mut b = self.balances.clone();
        if unclaimed > 0 {
            if let Err(e) = transfer_balance(&mut b, beneficiary, admin, unclaimed) {
                return Err(e);
            }
        }
        self.balances = b;
        self.vesting.remove(&beneficiary);
        self.frozen.remove(&beneficiary);
        self.emit_event(EventKind::RevokeVesting, beneficiary, unclaimed);
        Ok(())
    }
}

} // verus!
