//! The shared balance ledger: a map from account to a non-negative balance,
//! moved by debit and credit. An absent account holds zero.
use vstd::prelude::*;
use std::collections::HashMap;
use crate::error::TokenError;
use crate::types::AccountId;

verus! {

pub type Balances = Map<AccountId, i128>;

pub open spec fn balance_in(b: Balances, a: AccountId) -> int {
    if b.contains_key(a) {
        b[a] as int
    } else {
        0
    }
}

pub open spec fn balances_wf(b: Balances) -> bool {
    forall|a: AccountId| b.contains_key(a) ==> #[trigger] b[a] >= 0
}

/// Adds `amount` to an account; fails if the balance would not fit.
pub open spec fn credit(b: Balances, a: AccountId, amount: int) -> Result<Balances, TokenError> {
    if balance_in(b, a) + amount > i128::MAX {
        Err(TokenError::Overflow)
    } else {
        Ok(b.insert(a, (balance_in(b, a) + amount) as i128))
    }
}

/// Takes `amount` from an account; fails if it holds less.
pub open spec fn debit(b: Balances, a: AccountId, amount: int) -> Result<Balances, TokenError> {
    if balance_in(b, a) < amount {
        Err(TokenError::InsufficientBalance)
    } else {
        Ok(b.insert(a, (balance_in(b, a) - amount) as i128))
    }
}

/// Debits `from`, then credits `to`.
pub open spec fn move_funds(b: Balances, from: AccountId, to: AccountId, amount: int) -> Result<
    Balances,
    TokenError,
> {
    match debit(b, from, amount) {
        Ok(b1) => credit(b1, to, amount),
        Err(e) => Err(e),
    }
}

/// Reads the balance of `a`.
pub fn read_balance(b: &HashMap<AccountId, i128>, a: AccountId) -> (r: i128)
    ensures
        r == balance_in(b@, a),
{
    match b.get(&a) {
        Some(v) => *v,
        None => 0,
    }
}

/// Credits `amount` to `a`, or leaves the map as it was.
pub fn receive_balance(b: &mut HashMap<AccountId, i128>, a: AccountId, amount: i128) -> (r: Result<
    (),
    TokenError,
>)
    requires
        amount >= 0,
        balances_wf(old(b)@),
    ensures
        balances_wf(final(b)@),
        match credit(old(b)@, a, amount as int) {
            Ok(nb) => r is Ok && final(b)@ == nb,
            Err(e) => r == Err::<(), TokenError>(e) && final(b)@ == old(b)@,
        },
{
    let cur = read_balance(b, a);
    match cur.checked_add(amount) {
        None => Err(TokenError::Overflow),
        Some(v) => {
            b.insert(a, v);
            Ok(())
        },
    }
}

/// Debits `amount` from `a`, or leaves the map as it was.
pub fn spend_balance(b: &mut HashMap<AccountId, i128>, a: AccountId, amount: i128) -> (r: Result<
    (),
    TokenError,
>)
    requires
        amount >= 0,
        balances_wf(old(b)@),
    ensures
        balances_wf(final(b)@),
        match debit(old(b)@, a, amount as int) {
            Ok(nb) => r is Ok && final(b)@ == nb,
            Err(e) => r == Err::<(), TokenError>(e) && final(b)@ == old(b)@,
        },
{
    let cur = read_balance(b, a);
    if cur < amount {
        return Err(TokenError::InsufficientBalance);
    }
    b.insert(a, cur - amount);
    Ok(())
}

/// Moves `amount` from `from` to `to`. On failure the map may hold the
/// debit alone; callers work on a copy that they drop on failure.
pub fn transfer_balance(
    b: &mut HashMap<AccountId, i128>,
    from: AccountId,
    to: AccountId,
    amount: i128,
) -> (r: Result<(), TokenError>)
    requires
        amount >= 0,
        balances_wf(old(b)@),
    ensures
        balances_wf(final(b)@),
        match move_funds(old(b)@, from, to, amount as int) {
            Ok(nb) => r is Ok && final(b)@ == nb,
            Err(e) => r == Err::<(), TokenError>(e),
        },
{
    match spend_balance(b, from, amount) {
        Err(e) => Err(e),
        Ok(()) => receive_balance(b, to, amount),
    }
}

} // verus!
