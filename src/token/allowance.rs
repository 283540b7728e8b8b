//! Spending allowances: an owner lets a spender take up to an amount of its
//! balance until an expiration ledger. An expired allowance reads as zero.
use vstd::prelude::*;
use crate::error::TokenError;
use crate::ledger::{debit, move_funds, spend_balance, transfer_balance};
use crate::token::{commits, Token, TokenState};
use crate::types::{AccountId, AllowanceValue, EventKind};

verus! {

/// The key of the allowance `owner` gave `spender`.
pub open spec fn allowance_key(owner: AccountId, spender: AccountId) -> u128 {
    (owner * 0x1_0000_0000_0000_0000 + spender) as u128
}

/// Distinct (owner, spender) pairs have distinct keys.
pub proof fn lemma_allowance_key_injective(o1: AccountId, s1: AccountId, o2: AccountId, s2: AccountId)
    requires
        allowance_key(o1, s1) == allowance_key(o2, s2),
    ensures
        o1 == o2,
        s1 == s2,
{
    assert(o1 * 0x1_0000_0000_0000_0000 + s1 == o2 * 0x1_0000_0000_0000_0000 + s2);
}

/// The allowance in force now: zero once expired, zero and never expiring
/// when none was given.
pub open spec fn allowance_in(s: TokenState, owner: AccountId, spender: AccountId) -> AllowanceValue {
    let k = allowance_key(owner, spender);
    if !s.allowances.contains_key(k) {
        AllowanceValue { amount: 0, expiration_ledger: 0 }
    } else if s.allowances[k].expiration_ledger < s.now {
        AllowanceValue { amount: 0, expiration_ledger: s.allowances[k].expiration_ledger }
    } else {
        s.allowances[k]
    }
}

pub open spec fn approve_rule(
    s: TokenState,
    owner: AccountId,
    spender: AccountId,
    amount: i128,
    expiration_ledger: u32,
) -> Result<(TokenState, ()), TokenError> {
    if amount < 0 {
        Err(TokenError::NegativeAmount)
    } else if amount > 0 && expiration_ledger < s.now {
        Err(TokenError::InvalidExpiration)
    } else {
        Ok(
            (TokenState {
                allowances: s.allowances.insert(
                    allowance_key(owner, spender),
                    AllowanceValue { amount, expiration_ledger },
                ),
                ..s
            }.emit(EventKind::Approve, owner, amount as int), ()),
        )
    }
}

/// The allowances after `spender` takes `amount` of `owner`'s.
pub open spec fn spend_allowance(s: TokenState, owner: AccountId, spender: AccountId, amount: i128) -> Result<
    Map<u128, AllowanceValue>,
    TokenError,
> {
    let a = allowance_in(s, owner, spender);
    if a.amount < amount {
        Err(TokenError::InsufficientAllowance)
    } else if amount > 0 {
        Ok(
            s.allowances.insert(
                allowance_key(owner, spender),
                AllowanceValue { amount: (a.amount - amount) as i128, ..a },
            ),
        )
    } else {
        Ok(s.allowances)
    }
}

pub open spec fn transfer_from_rule(
    s: TokenState,
    spender: AccountId,
    from: AccountId,
    to: AccountId,
    amount: i128,
) -> Result<(TokenState, ()), TokenError> {
    if amount < 0 {
        Err(TokenError::NegativeAmount)
    } else if s.frozen.contains(from) {
        Err(TokenError::AccountFrozen)
    } else {
        match spend_allowance(s, from, spender, amount) {
            Err(e) => Err(e),
            Ok(allowances) => match move_funds(s.balances, from, to, amount as int) {
                Err(e) => Err(e),
                Ok(b) => Ok(
                    (TokenState { allowances, balances: b, ..s }.emit(
                        EventKind::Transfer,
                        from,
                        amount as int,
                    ), ()),
                ),
            },
        }
    }
}

pub open spec fn burn_from_rule(s: TokenState, spender: AccountId, from: AccountId, amount: i128) -> Result<
    (TokenState, ()),
    TokenError,
> {
    if amount < 0 {
        Err(TokenError::NegativeAmount)
    } else if s.frozen.contains(from) {
        Err(TokenError::AccountFrozen)
    } else {
        match spend_allowance(s, from, spender, amount) {
            Err(e) => Err(e),
            Ok(allowances) => match debit(s.balances, from, amount as int) {
                Err(e) => Err(e),
                Ok(b) => Ok(
                    (TokenState { allowances, balances: b, ..s }.emit(
                        EventKind::Burn,
                        from,
                        amount as int,
                    ), ()),
                ),
            },
        }
    }
}

fn key_of(owner: AccountId, spender: AccountId) -> (r: u128)
    ensures
        r == allowance_key(owner, spender),
{
    owner as u128 * 0x1_0000_0000_0000_0000 + spender as u128
}

impl Token {
    fn read_allowance(&self, owner: AccountId, spender: AccountId) -> (r: AllowanceValue)
        ensures
            r == allowance_in(self@, owner, spender),
    {
        match self.allowances.get(&key_of(owner, spender)) {
            None => AllowanceValue { amount: 0, expiration_ledger: 0 },
            Some(a) => if a.expiration_ledger < self.now {
                AllowanceValue { amount: 0, expiration_ledger: a.expiration_ledger }
            } else {
                *a
            },
        }
    }

    /// What `spender` may take from `from` now.
    pub fn allowance(&self, from: AccountId, spender: AccountId) -> (r: i128)
        ensures
            r == allowance_in(self@, from, spender).amount,
    {
        self.read_allowance(from, spender).amount
    }

    /// Lets `spender` take up to `amount` of `from`'s balance until
    /// `expiration_ledger`, replacing any earlier allowance.
    pub fn approve(&mut self, from: AccountId, spender: AccountId, amount: i128, expiration_ledger: u32) -> (r:
        Result<(), TokenError>)
        requires
            old(self)@.wf(),
        ensures
            final(self)@.wf(),
            commits(
                r,
                approve_rule(old(self)@, from, spender, amount, expiration_ledger),
                old(self)@,
                final(self)@,
            ),
    {
        if amount < 0 {
            return Err(TokenError::NegativeAmount);
        }
        if amount > 0 && expiration_ledger < self.now {
            return Err(TokenError::InvalidExpiration);
        }
        self.allowances.insert(key_of(from, spender), AllowanceValue { amount, expiration_ledger });
        self.emit_event(EventKind::Approve, from, amount);
        Ok(())
    }

    /// The allowances after spending, or the refusal.
    fn spent_allowance(&self, owner: AccountId, spender: AccountId, amount: i128) -> (r: Result<
        Option<AllowanceValue>,
        TokenError,
    >)
        ensures
            match spend_allowance(self@, owner, spender, amount) {
                Err(e) => r == Err::<Option<AllowanceValue>, TokenError>(e),
                Ok(m) => r is Ok && (match r->Ok_0 {
                    None => m == self@.allowances,
                    Some(v) => m == self@.allowances.insert(allowance_key(owner, spender), v),
                }),
            },
    {
        let a = self.read_allowance(owner, spender);
        if a.amount < amount {
            Err(TokenError::InsufficientAllowance)
        } else if amount > 0 {
            Ok(Some(AllowanceValue { amount: a.amount - amount, ..a }))
        } else {
            Ok(None)
        }
    }

    /// `spender` moves `amount` from `from` to `to` out of its allowance.
    pub fn transfer_from(&mut self, spender: AccountId, from: AccountId, to: AccountId, amount: i128) -> (r:
        Result<(), TokenError>)
        requires
            old(self)@.wf(),
        ensures
            final(self)@.wf(),
            commits(r, transfer_from_rule(old(self)@, spender, from, to, amount), old(self)@, final(self)@),
    {
        if amount < 0 {
            return Err(TokenError::NegativeAmount);
        }
        if self.frozen.contains(&from) {
            return Err(TokenError::AccountFrozen);
        }
        let spent = match self.spent_allowance(from, spender, amount) {
            Err(e) => return Err(e),
            Ok(v) => v,
        };
        let mut b = self.balances.clone();
        if let Err(e) = transfer_balance(&mut b, from, to, amount) {
            return Err(e);
        }
        if let Some(v) = spent {
            self.allowances.insert(key_of(from, spender), v);
        }
        self.balances = b;
        self.emit_event(EventKind::Transfer, from, amount);
        Ok(())
    }

    /// `spender` destroys `amount` of `from`'s balance out of its allowance.
    pub fn burn_from(&mut self, spender: AccountId, from: AccountId, amount: i128) -> (r: Result<
        (),
        TokenError,
    >)
        requires
            old(self)@.wf(),
        ensures
            final(self)@.wf(),
            commits(r, burn_from_rule(old(self)@, spender, from, amount), old(self)@, final(self)@),
    {
        if amount < 0 {
            return Err(TokenError::NegativeAmount);
        }
        if self.frozen.contains(&from) {
            return Err(TokenError::AccountFrozen);
        }
        let spent = match self.spent_allowance(from, spender, amount) {
            Err(e) => return Err(e),
            Ok(v) => v,
        };
        let mut b = self.balances.clone();
        if let Err(e) = spend_balance(&mut b, from, amount) {
            return Err(e);
        }
        if let Some(v) = spent {
            self.allowances.insert(key_of(from, spender), v);
        }
        self.balances = b;
        self.emit_event(EventKind::Burn, from, amount);
        Ok(())
    }
}

} // verus!
