//! The protocol's state store and its access registry. The vesting, staking
//! and lending engines add their operations in the submodules.
use vstd::prelude::*;
use std::collections::HashMap;
use std::collections::HashSet;
use crate::error::TokenError;
use crate::ledger::{
    balance_in, balances_wf, credit, debit, move_funds, read_balance, receive_balance,
    spend_balance, transfer_balance, Balances,
};
use crate::types::{
    AccountId, AllowanceValue, Event, EventKind, LendingPool, PoolInfo, StakeInfo, UserBorrow, UserSupply,
    VestingSchedule,
};

pub mod allowance;
pub mod lending;
pub mod staking;
pub mod vesting;

verus! {

/// The staking pool: its administrator, configuration and the stakes.
pub struct StakingRewards {
    admin: AccountId,
    pool: PoolInfo,
    stakes: HashMap<AccountId, StakeInfo>,
}

/// What `StakingRewards` holds, as values.
pub struct StakingState {
    pub admin: AccountId,
    pub pool: PoolInfo,
    pub stakes: Map<AccountId, StakeInfo>,
}

impl View for StakingRewards {
    type V = StakingState;

    closed spec fn view(&self) -> StakingState {
        StakingState { admin: self.admin, pool: self.pool, stakes: self.stakes@ }
    }
}

impl StakingState {
    pub open spec fn wf(self, now: u32) -> bool {
        &&& self.stakes.dom().finite()
        &&& self.pool.index_ledger <= now
        &&& self.pool.reward_index <= 0xFFFF_FFFF * self.pool.index_ledger
        &&& forall|a: AccountId| #[trigger]
            self.stakes.contains_key(a) ==> self.stakes[a].wf(now) && self.stakes[a].reward_index
                <= staking::index_at(self.pool, now)
        &&& self.pool.total_staked == staking::stake_total(self.stakes)
    }
}

/// The whole state of the protocol: the balance ledger, the access registry,
/// the allowances, the three engines, the logical clock and the log of
/// events. Operations stage their balance moves on a copy of the ledger and
/// write nothing until every check has passed, so a refused operation
/// leaves the store as it was.
pub struct Token {
    contract: AccountId,
    now: u32,
    admin: Option<AccountId>,
    decimal: u32,
    name: String,
    symbol: String,
    balances: HashMap<AccountId, i128>,
    frozen: HashSet<AccountId>,
    allowances: HashMap<u128, AllowanceValue>,
    vesting: HashMap<AccountId, VestingSchedule>,
    staking: Option<StakingRewards>,
    lending: Option<LendingPool>,
    liquidation_threshold: u32,
    liquidation_penalty: u32,
    supplies: HashMap<AccountId, UserSupply>,
    borrows: HashMap<AccountId, UserBorrow>,
    events: Vec<Event>,
}

/// What `Token` holds, as values.
pub struct TokenState {
    /// The protocol's own account, which holds staked, supplied and
    /// collateral funds.
    pub contract: AccountId,
    /// The logical clock.
    pub now: u32,
    pub admin: Option<AccountId>,
    pub decimal: u32,
    pub name: Seq<char>,
    pub symbol: Seq<char>,
    pub balances: Balances,
    pub frozen: Set<AccountId>,
    /// Allowances keyed by `allowance_key(owner, spender)`.
    pub allowances: Map<u128, AllowanceValue>,
    pub vesting: Map<AccountId, VestingSchedule>,
    pub staking: Option<StakingState>,
    pub lending: Option<LendingPool>,
    pub liquidation_threshold: u32,
    pub liquidation_penalty: u32,
    pub supplies: Map<AccountId, UserSupply>,
    pub borrows: Map<AccountId, UserBorrow>,
    pub events: Seq<Event>,
}

impl View for Token {
    type V = TokenState;

    closed spec fn view(&self) -> TokenState {
        TokenState {
            contract: self.contract,
            now: self.now,
            admin: self.admin,
            decimal: self.decimal,
            name: self.name@,
            symbol: self.symbol@,
            balances: self.balances@,
            frozen: self.frozen@,
            allowances: self.allowances@,
            vesting: self.vesting@,
            staking: match self.staking {
                Some(st) => Some(st@),
                None => None,
            },
            lending: self.lending,
            liquidation_threshold: self.liquidation_threshold,
            liquidation_penalty: self.liquidation_penalty,
            supplies: self.supplies@,
            borrows: self.borrows@,
            events: self.events@,
        }
    }
}

impl TokenState {
    /// The state invariant: balances are non-negative, every record is
    /// well formed and stamped no later than the clock, and the staking
    /// pool's total is the sum of the stakes.
    pub open spec fn wf(self) -> bool {
        &&& balances_wf(self.balances)
        &&& forall|a: AccountId| #[trigger] self.vesting.contains_key(a) ==> self.vesting[a].wf()
        &&& match self.staking {
            Some(st) => st.wf(self.now),
            None => true,
        }
        &&& match self.lending {
            Some(p) => p.last_update_ledger <= self.now,
            None => true,
        }
        &&& forall|a: AccountId| #[trigger]
            self.supplies.contains_key(a) ==> self.supplies[a].wf(self.now)
        &&& forall|a: AccountId| #[trigger]
            self.borrows.contains_key(a) ==> self.borrows[a].wf(self.now)
    }

    pub open spec fn balance(self, a: AccountId) -> int {
        balance_in(self.balances, a)
    }

    pub open spec fn emit(self, kind: EventKind, actor: AccountId, amount: int) -> TokenState {
        TokenState { events: self.events.push(Event { kind, actor, amount: amount as i128 }), ..self }
    }
}

/// Relates what an operation returned and the state it left to the outcome
/// that its rule gives: on success the new state and the value, on failure
/// the error and the state unchanged.
pub open spec fn commits<T>(
    r: Result<T, TokenError>,
    out: Result<(TokenState, T), TokenError>,
    before: TokenState,
    after: TokenState,
) -> bool {
    match out {
        Ok((t, v)) => r == Ok::<T, TokenError>(v) && after == t,
        Err(e) => r == Err::<T, TokenError>(e) && after == before,
    }
}

/// Succeeds with the administrator when `caller` is it.
pub open spec fn admin_check(s: TokenState, caller: AccountId) -> Result<AccountId, TokenError> {
    match s.admin {
        None => Err(TokenError::NotInitialized),
        Some(a) => if a == caller {
            Ok(a)
        } else {
            Err(TokenError::Unauthorized)
        },
    }
}

pub open spec fn initialize_rule(
    s: TokenState,
    admin: AccountId,
    decimal: u32,
    name: Seq<char>,
    symbol: Seq<char>,
) -> Result<(TokenState, ()), TokenError> {
    if s.admin is Some {
        Err(TokenError::AlreadyInitialized)
    } else if decimal > u8::MAX {
        Err(TokenError::InvalidDecimal)
    } else {
        Ok((TokenState { admin: Some(admin), decimal, name, symbol, ..s }, ()))
    }
}

pub open spec fn mint_rule(s: TokenState, caller: AccountId, to: AccountId, amount: i128) -> Result<
    (TokenState, ()),
    TokenError,
> {
    if amount < 0 {
        Err(TokenError::NegativeAmount)
    } else {
        match admin_check(s, caller) {
            Err(e) => Err(e),
            Ok(admin) => match credit(s.balances, to, amount as int) {
                Err(e) => Err(e),
                Ok(b) => Ok((TokenState { balances: b, ..s }.emit(EventKind::Mint, to, amount as int), ())),
            },
        }
    }
}

pub open spec fn set_admin_rule(s: TokenState, caller: AccountId, new_admin: AccountId) -> Result<
    (TokenState, ()),
    TokenError,
> {
    match admin_check(s, caller) {
        Err(e) => Err(e),
        Ok(admin) => Ok(
            (TokenState { admin: Some(new_admin), ..s }.emit(EventKind::SetAdmin, new_admin, 0), ()),
        ),
    }
}

pub open spec fn freeze_rule(s: TokenState, caller: AccountId, account: AccountId, freeze: bool) -> Result<
    (TokenState, ()),
    TokenError,
> {
    match admin_check(s, caller) {
        Err(e) => Err(e),
        Ok(admin) => if freeze {
            Ok(
                (TokenState { frozen: s.frozen.insert(account), ..s }.emit(
                    EventKind::FreezeAccount,
                    account,
                    0,
                ), ()),
            )
        } else {
            Ok(
                (TokenState { frozen: s.frozen.remove(account), ..s }.emit(
                    EventKind::UnfreezeAccount,
                    account,
                    0,
                ), ()),
            )
        },
    }
}

pub open spec fn transfer_rule(s: TokenState, from: AccountId, to: AccountId, amount: i128) -> Result<
    (TokenState, ()),
    TokenError,
> {
    if amount < 0 {
        Err(TokenError::NegativeAmount)
    } else if s.frozen.contains(from) {
        Err(TokenError::AccountFrozen)
    } else {
        match move_funds(s.balances, from, to, amount as int) {
            Err(e) => Err(e),
            Ok(b) => Ok((TokenState { balances: b, ..s }.emit(EventKind::Transfer, from, amount as int), ())),
        }
    }
}

pub open spec fn burn_rule(s: TokenState, from: AccountId, amount: i128) -> Result<
    (TokenState, ()),
    TokenError,
> {
    if amount < 0 {
        Err(TokenError::NegativeAmount)
    } else if s.frozen.contains(from) {
        Err(TokenError::AccountFrozen)
    } else {
        match debit(s.balances, from, amount as int) {
            Err(e) => Err(e),
            Ok(b) => Ok((TokenState { balances: b, ..s }.emit(EventKind::Burn, from, amount as int), ())),
        }
    }
}

/// Refuses a negative amount.
pub fn check_nonnegative_amount(amount: i128) -> (r: Result<(), TokenError>)
    ensures
        r == (if amount < 0 {
            Err::<(), TokenError>(TokenError::NegativeAmount)
        } else {
            Ok(())
        }),
{
    if amount < 0 {
        Err(TokenError::NegativeAmount)
    } else {
        Ok(())
    }
}

impl Token {
    /// A fresh store: no administrator, no engines, empty ledger, the clock
    /// at `now`. `contract` is the protocol's own account.
    pub fn new(contract: AccountId, now: u32) -> (r: Token)
        ensures
            r@.wf(),
            r@.contract == contract,
            r@.now == now,
            r@.admin is None,
            r@.balances == Map::<AccountId, i128>::empty(),
            r@.frozen == Set::<AccountId>::empty(),
            r@.allowances == Map::<u128, AllowanceValue>::empty(),
            r@.vesting == Map::<AccountId, VestingSchedule>::empty(),
            r@.staking is None,
            r@.lending is None,
            r@.supplies == Map::<AccountId, UserSupply>::empty(),
            r@.borrows == Map::<AccountId, UserBorrow>::empty(),
            r@.events == Seq::<Event>::empty(),
    {
        Token {
            contract,
            now,
            admin: None,
            decimal: 0,
            name: String::new(),
            symbol: String::new(),
            balances: HashMap::new(),
            frozen: HashSet::new(),
            allowances: HashMap::new(),
            vesting: HashMap::new(),
            staking: None,
            lending: None,
            liquidation_threshold: 0,
            liquidation_penalty: 0,
            supplies: HashMap::new(),
            borrows: HashMap::new(),
            events: Vec::new(),
        }
    }

    /// Advances the logical clock.
    pub fn set_ledger_sequence(&mut self, now: u32)
        requires
            old(self)@.wf(),
            now >= old(self)@.now,
        ensures
            final(self)@.wf(),
            final(self)@ == (TokenState { now, ..old(self)@ }),
    {
        self.now = now;
        proof {
            let s = self@;
            if let Some(st) = s.staking {
                staking::lemma_index_grows(st.pool, old(self)@.now, now);
                assert forall|a: AccountId| #[trigger] st.stakes.contains_key(a) implies st.stakes[
                    a
                ].wf(now) && st.stakes[a].reward_index <= staking::index_at(st.pool, now) by {
                    assert(st.stakes[a].wf(old(self)@.now));
                }
            }
            assert forall|a: AccountId| #[trigger] s.supplies.contains_key(a) implies s.supplies[
                a
            ].wf(now) by {
                assert(s.supplies[a].wf(old(self)@.now));
            }
            assert forall|a: AccountId| #[trigger] s.borrows.contains_key(a) implies s.borrows[
                a
            ].wf(now) by {
                assert(s.borrows[a].wf(old(self)@.now));
            }
        }
    }

    pub fn ledger_sequence(&self) -> (r: u32)
        ensures
            r == self@.now,
    {
        self.now
    }

    pub fn contract_account(&self) -> (r: AccountId)
        ensures
            r == self@.contract,
    {
        self.contract
    }

    /// The events emitted so far, oldest first.
    pub fn events(&self) -> (r: &Vec<Event>)
        ensures
            r@ == self@.events,
    {
        &self.events
    }

    pub(crate) fn emit_event(&mut self, kind: EventKind, actor: AccountId, amount: i128)
        ensures
            final(self)@ == old(self)@.emit(kind, actor, amount as int),
    {
        self.events.push(Event { kind, actor, amount });
    }

    pub(crate) fn require_admin(&self, caller: AccountId) -> (r: Result<AccountId, TokenError>)
        ensures
            r == admin_check(self@, caller),
    {
        match self.admin {
            None => Err(TokenError::NotInitialized),
            Some(a) => if a == caller {
                Ok(a)
            } else {
                Err(TokenError::Unauthorized)
            },
        }
    }

    /// Whether outgoing value moves from `account` are blocked.
    pub fn is_account_frozen(&self, account: AccountId) -> (r: bool)
        ensures
            r == self@.frozen.contains(account),
    {
        self.frozen.contains(&account)
    }

    /// Sets the administrator and the token metadata, once.
    pub fn initialize(&mut self, admin: AccountId, decimal: u32, name: String, symbol: String) -> (r:
        Result<(), TokenError>)
        requires
            old(self)@.wf(),
        ensures
            final(self)@.wf(),
            commits(r, initialize_rule(old(self)@, admin, decimal, name@, symbol@), old(self)@, final(self)@),
    {
        if self.admin.is_some() {
            return Err(TokenError::AlreadyInitialized);
        }
        if decimal > 255 {
            return Err(TokenError::InvalidDecimal);
        }
        self.admin = Some(admin);
        self.decimal = decimal;
        self.name = name;
        self.symbol = symbol;
        Ok(())
    }

    /// Creates `amount` new units in `to`; administrator only.
    pub fn mint(&mut self, caller: AccountId, to: AccountId, amount: i128) -> (r: Result<(), TokenError>)
        requires
            old(self)@.wf(),
        ensures
            final(self)@.wf(),
            commits(r, mint_rule(old(self)@, caller, to, amount), old(self)@, final(self)@),
    {
        if let Err(e) = check_nonnegative_amount(amount) {
            return Err(e);
        }
        if let Err(e) = self.require_admin(caller) {
            return Err(e);
        }
        match receive_balance(&mut self.balances, to, amount) {
            Err(e) => Err(e),
            Ok(()) => {
                self.emit_event(EventKind::Mint, to, amount);
                Ok(())
            },
        }
    }

    /// Hands the administrator role to `new_admin`.
    pub fn set_admin(&mut self, caller: AccountId, new_admin: AccountId) -> (r: Result<(), TokenError>)
        requires
            old(self)@.wf(),
        ensures
            final(self)@.wf(),
            commits(r, set_admin_rule(old(self)@, caller, new_admin), old(self)@, final(self)@),
    {
        if let Err(e) = self.require_admin(caller) {
            return Err(e);
        }
        self.admin = Some(new_admin);
        self.emit_event(EventKind::SetAdmin, new_admin, 0);
        Ok(())
    }

    /// Blocks outgoing value moves from `account`; administrator only.
    pub fn freeze_account(&mut self, caller: AccountId, account: AccountId) -> (r: Result<(), TokenError>)
        requires
            old(self)@.wf(),
        ensures
            final(self)@.wf(),
            commits(r, freeze_rule(old(self)@, caller, account, true), old(self)@, final(self)@),
    {
        if let Err(e) = self.require_admin(caller) {
            return Err(e);
        }
        self.frozen.insert(account);
        self.emit_event(EventKind::FreezeAccount, account, 0);
        Ok(())
    }

    /// Lifts the block on `account`; administrator only.
    pub fn unfreeze_account(&mut self, caller: AccountId, account: AccountId) -> (r: Result<(), TokenError>)
        requires
            old(self)@.wf(),
        ensures
            final(self)@.wf(),
            commits(r, freeze_rule(old(self)@, caller, account, false), old(self)@, final(self)@),
    {
        if let Err(e) = self.require_admin(caller) {
            return Err(e);
        }
        self.frozen.remove(&account);
        self.emit_event(EventKind::UnfreezeAccount, account, 0);
        Ok(())
    }

    pub fn balance(&self, id: AccountId) -> (r: i128)
        ensures
            r == self@.balance(id),
    {
        read_balance(&self.balances, id)
    }

    /// Moves `amount` from `from` to `to`, unless `from` is frozen.
    pub fn transfer(&mut self, from: AccountId, to: AccountId, amount: i128) -> (r: Result<(), TokenError>)
        requires
            old(self)@.wf(),
        ensures
            final(self)@.wf(),
            commits(r, transfer_rule(old(self)@, from, to, amount), old(self)@, final(self)@),
    {
        if let Err(e) = check_nonnegative_amount(amount) {
            return Err(e);
        }
        if self.is_account_frozen(from) {
            return Err(TokenError::AccountFrozen);
        }
        let mut b = self.balances.clone();
        match transfer_balance(&mut b, from, to, amount) {
            Err(e) => Err(e),
            Ok(()) => {
                self.balances = b;
                self.emit_event(EventKind::Transfer, from, amount);
                Ok(())
            },
        }
    }

    /// Destroys `amount` of `from`'s balance, unless `from` is frozen.
    pub fn burn(&mut self, from: AccountId, amount: i128) -> (r: Result<(), TokenError>)
        requires
            old(self)@.wf(),
        ensures
            final(self)@.wf(),
            commits(r, burn_rule(old(self)@, from, amount), old(self)@, final(self)@),
    {
        if let Err(e) = check_nonnegative_amount(amount) {
            return Err(e);
        }
        if self.is_account_frozen(from) {
            return Err(TokenError::AccountFrozen);
        }
        match spend_balance(&mut self.balances, from, amount) {
            Err(e) => Err(e),
            Ok(()) => {
                self.emit_event(EventKind::Burn, from, amount);
                Ok(())
            },
        }
    }

    pub fn decimals(&self) -> (r: u32)
        ensures
            r == self@.decimal,
    {
        self.decimal
    }

    pub fn name(&self) -> (r: String)
        ensures
            r@ == self@.name,
    {
        self.name.clone()
    }

    pub fn symbol(&self) -> (r: String)
        ensures
            r@ == self@.symbol,
    {
        self.symbol.clone()
    }
}

} // verus!
