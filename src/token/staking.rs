//! The staking rewards engine: a pool-wide reward index grows by the rate
//! (basis points per tick) and a stake earns its amount times the index's
//! growth since it was last settled, divided by 10000, paid from the
//! protocol account. At a constant rate that is `amount * rate * elapsed /
//! 10000`; a rate change settles the index first, so it prices only later
//! ticks. The pool's total always equals the sum of the stakes.
use vstd::prelude::*;
use std::collections::HashMap;
use crate::error::TokenError;
use crate::ledger::{move_funds, read_balance, transfer_balance};
use crate::math::{checked_reward, fits, reward};
use crate::token::{commits, StakingRewards, StakingState, Token, TokenState};
use crate::types::{AccountId, EventKind, PoolInfo, StakeInfo};

verus! {

/// Sum of the amounts of the stakes under `keys`.
pub open spec fn sum_amounts(m: Map<AccountId, StakeInfo>, keys: Set<AccountId>) -> int
    decreases keys.len(),
    when keys.finite()
{
    if keys.len() == 0 {
        0
    } else {
        let k = keys.choose();
        m[k].amount + sum_amounts(m, keys.remove(k))
    }
}

/// Sum of all staked amounts.
pub open spec fn stake_total(m: Map<AccountId, StakeInfo>) -> int {
    sum_amounts(m, m.dom())
}

proof fn lemma_sum_remove(m: Map<AccountId, StakeInfo>, keys: Set<AccountId>, k: AccountId)
    requires
        keys.finite(),
        keys.contains(k),
    ensures
        sum_amounts(m, keys) == m[k].amount + sum_amounts(m, keys.remove(k)),
    decreases keys.len(),
{
    let c = keys.choose();
    if c != k {
        lemma_sum_remove(m, keys.remove(c), k);
        lemma_sum_remove(m, keys.remove(k), c);
        assert(keys.remove(c).remove(k) =~= keys.remove(k).remove(c));
    }
}

proof fn lemma_sum_agree(m1: Map<AccountId, StakeInfo>, m2: Map<AccountId, StakeInfo>, keys: Set<AccountId>)
    requires
        keys.finite(),
        forall|k: AccountId| keys.contains(k) ==> #[trigger] m1[k].amount == m2[k].amount,
    ensures
        sum_amounts(m1, keys) == sum_amounts(m2, keys),
    decreases keys.len(),
{
    if keys.len() > 0 {
        let c = keys.choose();
        lemma_sum_agree(m1, m2, keys.remove(c));
    }
}

proof fn lemma_sum_nonneg(m: Map<AccountId, StakeInfo>, keys: Set<AccountId>)
    requires
        keys.finite(),
        forall|k: AccountId| keys.contains(k) ==> #[trigger] m[k].amount >= 0,
    ensures
        sum_amounts(m, keys) >= 0,
    decreases keys.len(),
{
    if keys.len() > 0 {
        let c = keys.choose();
        lemma_sum_nonneg(m, keys.remove(c));
    }
}

/// Writing one stake changes the total by the difference of the amounts.
pub proof fn lemma_stake_total_insert(m: Map<AccountId, StakeInfo>, k: AccountId, v: StakeInfo)
    requires
        m.dom().finite(),
    ensures
        stake_total(m.insert(k, v)) == stake_total(m) - (if m.contains_key(k) {
            m[k].amount as int
        } else {
            0
        }) + v.amount,
{
    let m2 = m.insert(k, v);
    lemma_sum_remove(m2, m2.dom(), k);
    assert(m2.dom().remove(k) =~= m.dom().remove(k));
    lemma_sum_agree(m2, m, m.dom().remove(k));
    if m.contains_key(k) {
        lemma_sum_remove(m, m.dom(), k);
    } else {
        assert(m.dom().remove(k) =~= m.dom());
    }
}

/// Removing one stake lowers the total by its amount.
pub proof fn lemma_stake_total_remove(m: Map<AccountId, StakeInfo>, k: AccountId)
    requires
        m.dom().finite(),
        m.contains_key(k),
    ensures
        stake_total(m.remove(k)) == stake_total(m) - m[k].amount,
{
    lemma_sum_remove(m, m.dom(), k);
    assert(m.remove(k).dom() =~= m.dom().remove(k));
    lemma_sum_agree(m.remove(k), m, m.dom().remove(k));
}

/// With positive stakes, each stake is at most the total.
proof fn lemma_stake_within_total(m: Map<AccountId, StakeInfo>, k: AccountId)
    requires
        m.dom().finite(),
        m.contains_key(k),
        forall|a: AccountId| m.contains_key(a) ==> #[trigger] m[a].amount > 0,
    ensures
        m[k].amount <= stake_total(m),
{
    lemma_sum_remove(m, m.dom(), k);
    lemma_sum_nonneg(m, m.dom().remove(k));
}

/// In every reachable state the pool's total staked is the sum of the
/// stakes.
pub proof fn lemma_total_staked_is_sum(s: TokenState)
    requires
        s.wf(),
        s.staking is Some,
    ensures
        s.staking->Some_0.pool.total_staked == stake_total(s.staking->Some_0.stakes),
{
}

/// The pool's reward index at `now`: the settled index plus the current
/// rate over the ticks since it was settled.
pub open spec fn index_at(pool: PoolInfo, now: u32) -> int {
    pool.reward_index + pool.reward_rate * (now - pool.index_ledger)
}

/// The reward index grows with time and stays below `u32::MAX` per tick.
pub proof fn lemma_index_grows(pool: PoolInfo, t1: u32, t2: u32)
    requires
        pool.index_ledger <= t1 <= t2,
        pool.reward_index <= 0xFFFF_FFFF * pool.index_ledger,
    ensures
        pool.reward_index <= index_at(pool, t1) <= index_at(pool, t2),
        index_at(pool, t2) <= 0xFFFF_FFFF * t2,
{
    let r = pool.reward_rate as int;
    let l = pool.index_ledger as int;
    assert(0 <= r * (t1 - l) <= r * (t2 - l)) by (nonlinear_arith)
        requires
            0 <= r,
            l <= t1 <= t2,
    ;
    assert(r * (t2 - l) <= 0xFFFF_FFFF * (t2 - l)) by (nonlinear_arith)
        requires
            0 <= r <= 0xFFFF_FFFF,
            l <= t2,
    ;
}

/// The pending reward of a stake as a checked result: its amount times the
/// growth of the reward index since it was last settled.
pub open spec fn reward_of(info: StakeInfo, pool: PoolInfo, now: u32) -> Result<i128, TokenError> {
    let d = index_at(pool, now) - info.reward_index;
    if fits(info.amount * d) {
        Ok(reward(info.amount as int, d) as i128)
    } else {
        Err(TokenError::Overflow)
    }
}

/// Succeeds with the staking pool when `caller` is its administrator.
pub open spec fn staking_admin_check(s: TokenState, caller: AccountId) -> Result<
    StakingState,
    TokenError,
> {
    match s.staking {
        None => Err(TokenError::NotInitialized),
        Some(st) => if st.admin == caller {
            Ok(st)
        } else {
            Err(TokenError::Unauthorized)
        },
    }
}

pub open spec fn initialize_staking_rule(
    s: TokenState,
    admin: AccountId,
    token_id: AccountId,
    reward_token_id: AccountId,
    reward_rate: u32,
    min_stake_duration: u32,
) -> Result<(TokenState, ()), TokenError> {
    if s.staking is Some {
        Err(TokenError::AlreadyInitialized)
    } else {
        let pool = PoolInfo {
            token_id,
            reward_token_id,
            reward_rate,
            total_staked: 0,
            min_stake_duration,
            reward_index: 0,
            index_ledger: s.now,
        };
        Ok(
            (TokenState {
                staking: Some(StakingState { admin, pool, stakes: Map::empty() }),
                ..s
            }.emit(EventKind::InitializeStaking, admin, 0), ()),
        )
    }
}

pub open spec fn update_pool_rule(s: TokenState, caller: AccountId, value: u32, rate: bool) -> Result<
    (TokenState, ()),
    TokenError,
> {
    match staking_admin_check(s, caller) {
        Err(e) => Err(e),
        Ok(st) => {
            let pool = if rate {
                PoolInfo {
                    reward_rate: value,
                    reward_index: index_at(st.pool, s.now) as u64,
                    index_ledger: s.now,
                    ..st.pool
                }
            } else {
                PoolInfo { min_stake_duration: value, ..st.pool }
            };
            let kind = if rate {
                EventKind::UpdateRewardRate
            } else {
                EventKind::UpdateMinDuration
            };
            Ok(
                (TokenState { staking: Some(StakingState { pool, ..st }), ..s }.emit(
                    kind,
                    st.admin,
                    value as int,
                ), ()),
            )
        },
    }
}

/// Settling the index at `now` and switching the rate leaves the index at
/// `now` unchanged.
proof fn lemma_settled_pool(pool: PoolInfo, now: u32, new_rate: u32)
    requires
        pool.index_ledger <= now,
        pool.reward_index <= 0xFFFF_FFFF * pool.index_ledger,
    ensures
        ({
            let np = PoolInfo {
                reward_rate: new_rate,
                reward_index: index_at(pool, now) as u64,
                index_ledger: now,
                ..pool
            };
            &&& index_at(np, now) == index_at(pool, now)
            &&& np.reward_index <= 0xFFFF_FFFF * np.index_ledger
        }),
{
    lemma_index_grows(pool, now, now);
    assert(0xFFFF_FFFF * now <= 0xFFFF_FFFF * 0xFFFF_FFFF) by (nonlinear_arith)
        requires
            now <= 0xFFFF_FFFF,
    ;
    assert(new_rate * (now - now) == 0);
}

/// A rate change applies to later ticks only: at the tick of the change
/// every account's pending reward is what it was before.
pub proof fn lemma_rate_change_keeps_pending(s: TokenState, caller: AccountId, new_rate: u32)
    requires
        s.wf(),
        update_pool_rule(s, caller, new_rate, true) is Ok,
    ensures
        forall|u: AccountId| #[trigger]
            pending_rewards(update_pool_rule(s, caller, new_rate, true)->Ok_0.0, u)
                == pending_rewards(s, u),
{
    let st = s.staking->Some_0;
    let t = update_pool_rule(s, caller, new_rate, true)->Ok_0.0;
    let nt = t.staking->Some_0;
    lemma_settled_pool(st.pool, s.now, new_rate);
    assert(nt.pool == PoolInfo {
        reward_rate: new_rate,
        reward_index: index_at(st.pool, s.now) as u64,
        index_ledger: s.now,
        ..st.pool
    });
    assert forall|u: AccountId| #[trigger] pending_rewards(t, u) == pending_rewards(s, u) by {
        if st.stakes.contains_key(u) {
            assert(reward_of(nt.stakes[u], nt.pool, t.now) == reward_of(st.stakes[u], st.pool, s.now));
        }
    }
}

/// Pays a pending reward from the protocol account, announcing it; no
/// move when the reward is not positive.
pub open spec fn pay_reward(s: TokenState, user: AccountId, r: i128) -> Result<TokenState, TokenError> {
    if r > 0 {
        match move_funds(s.balances, s.contract, user, r as int) {
            Err(e) => Err(e),
            Ok(b) => Ok(TokenState { balances: b, ..s }.emit(EventKind::ClaimReward, user, r as int)),
        }
    } else {
        Ok(s)
    }
}

pub open spec fn stake_rule(s: TokenState, user: AccountId, amount: i128) -> Result<
    (TokenState, ()),
    TokenError,
> {
    if amount <= 0 {
        Err(TokenError::NonPositiveAmount)
    } else {
        match s.staking {
            None => Err(TokenError::NotInitialized),
            Some(st) => if s.balance(user) < amount {
                Err(TokenError::InsufficientBalance)
            } else {
                match move_funds(s.balances, user, s.contract, amount as int) {
                    Err(e) => Err(e),
                    Ok(b1) => {
                        let s1 = TokenState { balances: b1, ..s };
                        let paid = if st.stakes.contains_key(user) {
                            match reward_of(st.stakes[user], st.pool, s.now) {
                                Err(e) => Err(e),
                                Ok(r) => pay_reward(s1, user, r),
                            }
                        } else {
                            Ok(s1)
                        };
                        let info = if st.stakes.contains_key(user) {
                            topped_up_stake(
                                st.stakes[user],
                                amount,
                                s.now,
                                index_at(st.pool, s.now) as u64,
                            )
                        } else {
                            Ok(
                                StakeInfo {
                                    amount,
                                    since_ledger: s.now,
                                    last_claim_ledger: s.now,
                                    reward_index: index_at(st.pool, s.now) as u64,
                                },
                            )
                        };
                        match paid {
                            Err(e) => Err(e),
                            Ok(s2) => match info {
                                Err(e) => Err(e),
                                Ok(info) => if !fits(st.pool.total_staked + amount) {
                                    Err(TokenError::Overflow)
                                } else {
                                    let pool = PoolInfo {
                                        total_staked: (st.pool.total_staked + amount) as i128,
                                        ..st.pool
                                    };
                                    Ok(
                                        (TokenState {
                                            staking: Some(
                                                StakingState {
                                                    pool,
                                                    stakes: st.stakes.insert(user, info),
                                                    ..st
                                                },
                                            ),
                                            ..s2
                                        }.emit(EventKind::Stake, user, amount as int), ()),
                                    )
                                },
                            },
                        }
                    },
                }
            },
        }
    }
}

/// An existing stake topped up by `amount`, its reward settled at `index`.
pub open spec fn topped_up_stake(info: StakeInfo, amount: i128, now: u32, index: u64) -> Result<
    StakeInfo,
    TokenError,
> {
    if fits(info.amount + amount) {
        Ok(
            StakeInfo {
                amount: (info.amount + amount) as i128,
                last_claim_ledger: now,
                reward_index: index,
                ..info
            },
        )
    } else {
        Err(TokenError::Overflow)
    }
}

pub open spec fn claim_rewards_rule(s: TokenState, user: AccountId) -> Result<
    (TokenState, i128),
    TokenError,
> {
    match s.staking {
        None => Err(TokenError::NotInitialized),
        Some(st) => if !st.stakes.contains_key(user) {
            Err(TokenError::NoStake)
        } else {
            let info = st.stakes[user];
            match reward_of(info, st.pool, s.now) {
                Err(e) => Err(e),
                Ok(r) => if r <= 0 {
                    Err(TokenError::NoRewards)
                } else {
                    match move_funds(s.balances, s.contract, user, r as int) {
                        Err(e) => Err(e),
                        Ok(b) => Ok(
                            (TokenState {
                                balances: b,
                                staking: Some(
                                    StakingState {
                                        stakes: st.stakes.insert(
                                            user,
                                            StakeInfo {
                                                last_claim_ledger: s.now,
                                                reward_index: index_at(st.pool, s.now) as u64,
                                                ..info
                                            },
                                        ),
                                        ..st
                                    },
                                ),
                                ..s
                            }.emit(EventKind::ClaimReward, user, r as int), r),
                        ),
                    }
                },
            }
        },
    }
}

pub open spec fn pending_rewards(s: TokenState, user: AccountId) -> Result<i128, TokenError> {
    match s.staking {
        None => Err(TokenError::NotInitialized),
        Some(st) => if !st.stakes.contains_key(user) {
            Ok(0)
        } else {
            reward_of(st.stakes[user], st.pool, s.now)
        },
    }
}

pub open spec fn unstake_rule(s: TokenState, user: AccountId, amount: i128) -> Result<
    (TokenState, i128),
    TokenError,
> {
    if amount <= 0 {
        Err(TokenError::NonPositiveAmount)
    } else {
        match s.staking {
            None => Err(TokenError::NotInitialized),
            Some(st) => if !st.stakes.contains_key(user) {
                Err(TokenError::NoStake)
            } else {
                let info = st.stakes[user];
                if amount > info.amount {
                    Err(TokenError::ExceedsStake)
                } else if s.now - info.since_ledger < st.pool.min_stake_duration {
                    Err(TokenError::MinStakeDurationNotMet)
                } else {
                    match reward_of(info, st.pool, s.now) {
                        Err(e) => Err(e),
                        Ok(r) => match pay_reward(s, user, r) {
                            Err(e) => Err(e),
                            Ok(s1) => match move_funds(s1.balances, s.contract, user, amount as int) {
                                Err(e) => Err(e),
                                Ok(b) => {
                                    let left = (info.amount - amount) as i128;
                                    let stakes = if left == 0 {
                                        st.stakes.remove(user)
                                    } else {
                                        st.stakes.insert(
                                            user,
                                            StakeInfo {
                                                amount: left,
                                                last_claim_ledger: s.now,
                                                reward_index: index_at(st.pool, s.now) as u64,
                                                ..info
                                            },
                                        )
                                    };
                                    let pool = PoolInfo {
                                        total_staked: (st.pool.total_staked - amount) as i128,
                                        ..st.pool
                                    };
                                    Ok(
                                        (TokenState {
                                            balances: b,
                                            staking: Some(StakingState { pool, stakes, ..st }),
                                            ..s1
                                        }.emit(EventKind::Unstake, user, amount as int), amount),
                                    )
                                },
                            },
                        },
                    }
                }
            },
        }
    }
}

pub open spec fn emergency_withdraw_rewards_rule(s: TokenState, caller: AccountId) -> Result<
    (TokenState, i128),
    TokenError,
> {
    match staking_admin_check(s, caller) {
        Err(e) => Err(e),
        Ok(st) => {
            let balance = s.balance(s.contract);
            if balance > 0 {
                match move_funds(s.balances, s.contract, st.admin, balance) {
                    Err(e) => Err(e),
                    Ok(b) => Ok(
                        (TokenState { balances: b, ..s }.emit(
                            EventKind::EmergencyWithdraw,
                            st.admin,
                            balance,
                        ), balance as i128),
                    ),
                }
            } else {
                Ok((s, 0))
            }
        },
    }
}


fn stake_of(stakes: &HashMap<AccountId, StakeInfo>, user: AccountId) -> (r: Option<StakeInfo>)
    ensures
        r == (if stakes@.contains_key(user) {
            Some(stakes@[user])
        } else {
            None
        }),
{
    match stakes.get(&user) {
        Some(info) => Some(*info),
        None => None,
    }
}

/// The pool's reward index at `now`.
fn pool_index(pool: &PoolInfo, now: u32) -> (r: u64)
    requires
        pool.index_ledger <= now,
        pool.reward_index <= 0xFFFF_FFFF * pool.index_ledger,
    ensures
        r == index_at(*pool, now),
{
    proof {
        lemma_index_grows(*pool, now, now);
        assert(pool.reward_rate * (now - pool.index_ledger) <= 0xFFFF_FFFF * 0xFFFF_FFFF) by (
        nonlinear_arith)
            requires
                pool.reward_rate <= 0xFFFF_FFFF,
                0 <= now - pool.index_ledger <= 0xFFFF_FFFF,
        ;
    }
    pool.reward_index + pool.reward_rate as u64 * (now - pool.index_ledger) as u64
}

/// The pending reward of `info` when the pool's index stands at `index`.
fn pending_reward(info: &StakeInfo, index: u64) -> (r: Result<i128, TokenError>)
    requires
        info.reward_index <= index,
    ensures
        r == (if fits(info.amount * (index - info.reward_index)) {
            Ok::<i128, TokenError>(reward(info.amount as int, index - info.reward_index) as i128)
        } else {
            Err::<i128, TokenError>(TokenError::Overflow)
        }),
{
    checked_reward(info.amount, index - info.reward_index)
}

impl Token {
    /// Creates the staking pool, once. `admin` administers it.
    pub fn initialize_staking(
        &mut self,
        admin: AccountId,
        token_id: AccountId,
        reward_token_id: AccountId,
        reward_rate: u32,
        min_stake_duration: u32,
    ) -> (r: Result<(), TokenError>)
        requires
            old(self)@.wf(),
        ensures
            final(self)@.wf(),
            commits(
                r,
                initialize_staking_rule(
                    old(self)@,
                    admin,
                    token_id,
                    reward_token_id,
                    reward_rate,
                    min_stake_duration,
                ),
                old(self)@,
                final(self)@,
            ),
    {
        if self.staking.is_some() {
            return Err(TokenError::AlreadyInitialized);
        }
        let pool = PoolInfo {
            token_id,
            reward_token_id,
            reward_rate,
            total_staked: 0,
            min_stake_duration,
            reward_index: 0,
            index_ledger: self.now,
        };
        let stakes: HashMap<AccountId, StakeInfo> = HashMap::new();
        proof {
            assert(stake_total(stakes@) == 0);
        }
        self.staking = Some(StakingRewards { admin, pool, stakes });
        self.emit_event(EventKind::InitializeStaking, admin, 0);
        Ok(())
    }

    fn update_pool(&mut self, caller: AccountId, value: u32, rate: bool) -> (r: Result<(), TokenError>)
        requires
            old(self)@.wf(),
        ensures
            final(self)@.wf(),
            commits(r, update_pool_rule(old(self)@, caller, value, rate), old(self)@, final(self)@),
    {
        match &self.staking {
            None => return Err(TokenError::NotInitialized),
            Some(st) => if st.admin != caller {
                return Err(TokenError::Unauthorized);
            },
        }
        let mut st = match self.staking.take() {
            Some(st) => st,
            None => return Err(TokenError::NotInitialized),
        };
        proof {
            lemma_settled_pool(st.pool, self.now, value);
        }
        let kind = if rate {
            st.pool.reward_index = pool_index(&st.pool, self.now);
            st.pool.index_ledger = self.now;
            st.pool.reward_rate = value;
            EventKind::UpdateRewardRate
        } else {
            st.pool.min_stake_duration = value;
            EventKind::UpdateMinDuration
        };
        let admin = st.admin;
        self.staking = Some(st);
        self.emit_event(kind, admin, value as i128);
        Ok(())
    }

    /// Sets the reward rate for future accrual; pool administrator only.
    pub fn update_reward_rate(&mut self, caller: AccountId, new_rate: u32) -> (r: Result<(), TokenError>)
        requires
            old(self)@.wf(),
        ensures
            final(self)@.wf(),
            commits(r, update_pool_rule(old(self)@, caller, new_rate, true), old(self)@, final(self)@),
            r is Ok ==> forall|u: AccountId| #[trigger]
                pending_rewards(final(self)@, u) == pending_rewards(old(self)@, u),
    {
        let r = self.update_pool(caller, new_rate, true);
        proof {
            if r is Ok {
                lemma_rate_change_keeps_pending(old(self)@, caller, new_rate);
            }
        }
        r
    }

    /// Sets the minimum holding period; pool administrator only.
    pub fn update_min_stake_duration(&mut self, caller: AccountId, new_duration: u32) -> (r: Result<
        (),
        TokenError,
    >)
        requires
            old(self)@.wf(),
        ensures
            final(self)@.wf(),
            commits(
                r,
                update_pool_rule(old(self)@, caller, new_duration, false),
                old(self)@,
                final(self)@,
            ),
    {
        self.update_pool(caller, new_duration, false)
    }

    /// Stakes `amount` of `user`'s balance. An existing stake first has its
    /// pending reward paid.
    pub fn stake(&mut self, user: AccountId, amount: i128) -> (r: Result<(), TokenError>)
        requires
            old(self)@.wf(),
        ensures
            final(self)@.wf(),
            commits(r, stake_rule(old(self)@, user, amount), old(self)@, final(self)@),
    {
        if amount <= 0 {
            return Err(TokenError::NonPositiveAmount);
        }
        let (index, total, existing) = match &self.staking {
            None => return Err(TokenError::NotInitialized),
            Some(st) => (pool_index(&st.pool, self.now), st.pool.total_staked, stake_of(&st.stakes, user)),
        };
        if read_balance(&self.balances, user) < amount {
            return Err(TokenError::InsufficientBalance);
        }
        let mut b = self.balances.clone();
        if let Err(e) = transfer_balance(&mut b, user, self.contract, amount) {
            return Err(e);
        }
        let mut reward_paid: i128 = 0;
        let info = match existing {
            Some(info) => {
                let r = match pending_reward(&info, index) {
                    Err(e) => return Err(e),
                    Ok(v) => v,
                };
                if r > 0 {
                    if let Err(e) = transfer_balance(&mut b, self.contract, user, r) {
                        return Err(e);
                    }
                    reward_paid = r;
                }
                match info.amount.checked_add(amount) {
                    None => return Err(TokenError::Overflow),
                    Some(a) => StakeInfo {
                        amount: a,
                        last_claim_ledger: self.now,
                        reward_index: index,
                        ..info
                    },
                }
            },
            None => StakeInfo {
                amount,
                since_ledger: self.now,
                last_claim_ledger: self.now,
                reward_index: index,
            },
        };
        let new_total = match total.checked_add(amount) {
            None => return Err(TokenError::Overflow),
            Some(v) => v,
        };
        let mut st = match self.staking.take() {
            Some(st) => st,
            None => return Err(TokenError::NotInitialized),
        };
        proof {
            lemma_stake_total_insert(st.stakes@, user, info);
        }
        st.pool.total_staked = new_total;
        st.stakes.insert(user, info);
        self.staking = Some(st);
        self.balances = b;
        if reward_paid > 0 {
            self.emit_event(EventKind::ClaimReward, user, reward_paid);
        }
        self.emit_event(EventKind::Stake, user, amount);
        Ok(())
    }

    /// Pays `user` the reward accrued since their last claim.
    pub fn claim_rewards(&mut self, user: AccountId) -> (r: Result<i128, TokenError>)
        requires
            old(self)@.wf(),
        ensures
            final(self)@.wf(),
            commits(r, claim_rewards_rule(old(self)@, user), old(self)@, final(self)@),
    {
        let (index, existing) = match &self.staking {
            None => return Err(TokenError::NotInitialized),
            Some(st) => (pool_index(&st.pool, self.now), stake_of(&st.stakes, user)),
        };
        let info = match existing {
            None => return Err(TokenError::NoStake),
            Some(info) => info,
        };
        let reward = match pending_reward(&info, index) {
            Err(e) => return Err(e),
            Ok(v) => v,
        };
        if reward <= 0 {
            return Err(TokenError::NoRewards);
        }
        let mut b = self.balances.clone();
        if let Err(e) = transfer_balance(&mut b, self.contract, user, reward) {
            return Err(e);
        }
        let mut st = match self.staking.take() {
            Some(st) => st,
            None => return Err(TokenError::NotInitialized),
        };
        let updated = StakeInfo { last_claim_ledger: self.now, reward_index: index, ..info };
        proof {
            lemma_stake_total_insert(st.stakes@, user, updated);
        }
        st.stakes.insert(user, updated);
        self.staking = Some(st);
        self.balances = b;
        self.emit_event(EventKind::ClaimReward, user, reward);
        Ok(reward)
    }

    /// The reward `user` could claim now; zero without a stake.
    pub fn get_pending_rewards(&self, user: AccountId) -> (r: Result<i128, TokenError>)
        requires
            self@.wf(),
        ensures
            r == pending_rewards(self@, user),
    {
        match &self.staking {
            None => Err(TokenError::NotInitialized),
            Some(st) => match st.stakes.get(&user) {
                None => Ok(0),
                Some(info) => pending_reward(info, pool_index(&st.pool, self.now)),
            },
        }
    }

    /// Returns `amount` of `user`'s stake once the minimum holding period
    /// has passed, paying the pending reward first.
    pub fn unstake(&mut self, user: AccountId, amount: i128) -> (r: Result<i128, TokenError>)
        requires
            old(self)@.wf(),
        ensures
            final(self)@.wf(),
            commits(r, unstake_rule(old(self)@, user, amount), old(self)@, final(self)@),
    {
        if amount <= 0 {
            return Err(TokenError::NonPositiveAmount);
        }
        let (index, min_duration, total, existing) = match &self.staking {
            None => return Err(TokenError::NotInitialized),
            Some(st) => (
                pool_index(&st.pool, self.now),
                st.pool.min_stake_duration,
                st.pool.total_staked,
                stake_of(&st.stakes, user),
            ),
        };
        let info = match existing {
            None => return Err(TokenError::NoStake),
            Some(info) => info,
        };
        if amount > info.amount {
            return Err(TokenError::ExceedsStake);
        }
        if self.now - info.since_ledger < min_duration {
            return Err(TokenError::MinStakeDurationNotMet);
        }
        let reward = match pending_reward(&info, index) {
            Err(e) => return Err(e),
            Ok(v) => v,
        };
        let mut b = self.balances.clone();
        if reward > 0 {
            if let Err(e) = transfer_balance(&mut b, self.contract, user, reward) {
                return Err(e);
            }
        }
        if let Err(e) = transfer_balance(&mut b, self.contract, user, amount) {
            return Err(e);
        }
        let mut st = match self.staking.take() {
            Some(st) => st,
            None => return Err(TokenError::NotInitialized),
        };
        proof {
            lemma_stake_within_total(st.stakes@, user);
        }
        let left = info.amount - amount;
        if left == 0 {
            proof {
                lemma_stake_total_remove(st.stakes@, user);
            }
            st.stakes.remove(&user);
        } else {
            let updated = StakeInfo {
                amount: left,
                last_claim_ledger: self.now,
                reward_index: index,
                ..info
            };
            proof {
                lemma_stake_total_insert(st.stakes@, user, updated);
            }
            st.stakes.insert(user, updated);
        }
        st.pool.total_staked = total - amount;
        self.staking = Some(st);
        self.balances = b;
        if reward > 0 {
            self.emit_event(EventKind::ClaimReward, user, reward);
        }
        self.emit_event(EventKind::Unstake, user, amount);
        Ok(amount)
    }

    /// `user`'s stake; fails without one.
    pub fn get_stake_info(&self, user: AccountId) -> (r: Result<StakeInfo, TokenError>)
        ensures
            r == (match self@.staking {
                None => Err::<StakeInfo, TokenError>(TokenError::NotInitialized),
                Some(st) => if st.stakes.contains_key(user) {
                    Ok(st.stakes[user])
                } else {
                    Err(TokenError::NoStake)
                },
            }),
    {
        match &self.staking {
            None => Err(TokenError::NotInitialized),
            Some(st) => match st.stakes.get(&user) {
                None => Err(TokenError::NoStake),
                Some(info) => Ok(*info),
            },
        }
    }

    pub fn get_pool_info(&self) -> (r: Result<PoolInfo, TokenError>)
        ensures
            r == (match self@.staking {
                None => Err::<PoolInfo, TokenError>(TokenError::NotInitialized),
                Some(st) => Ok(st.pool),
            }),
    {
        match &self.staking {
            None => Err(TokenError::NotInitialized),
            Some(st) => Ok(st.pool),
        }
    }

    /// Pays the protocol account's whole balance to the pool administrator;
    /// returns the amount.
    pub fn emergency_withdraw_rewards(&mut self, caller: AccountId) -> (r: Result<i128, TokenError>)
        requires
            old(self)@.wf(),
        ensures
            final(self)@.wf(),
            commits(r, emergency_withdraw_rewards_rule(old(self)@, caller), old(self)@, final(self)@),
    {
        let admin = match &self.staking {
            None => return Err(TokenError::NotInitialized),
            Some(st) => if st.admin != caller {
                return Err(TokenError::Unauthorized);
            } else {
                st.admin
            },
        };
        let balance = read_balance(&self.balances, self.contract);
        if balance > 0 {
            let mut b = self.balances.clone();
            if let Err(e) = transfer_balance(&mut b, self.contract, admin, balance) {
                return Err(e);
            }
            self.balances = b;
            self.emit_event(EventKind::EmergencyWithdraw, admin, balance);
        }
        Ok(balance)
    }
}

} // verus!
