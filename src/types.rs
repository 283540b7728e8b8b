use vstd::prelude::*;

verus! {

/// An account of the ledger, identified by number.
pub type AccountId = u64;

/// A linear grant with an optional cliff, counted in ledger ticks.
#[derive(Clone, Copy, Debug, PartialEq, Eq, Structural)]
pub struct VestingSchedule {
    pub beneficiary: AccountId,
    pub total_amount: i128,
    pub claimed_amount: i128,
    pub start_ledger: u32,
    /// Zero means no cliff.
    pub cliff_ledger: u32,
    pub end_ledger: u32,
}

impl VestingSchedule {
    pub open spec fn wf(self) -> bool {
        &&& 0 <= self.claimed_amount <= self.total_amount
        &&& self.end_ledger > self.start_ledger
        &&& (self.cliff_ledger == 0 || self.cliff_ledger >= self.start_ledger)
    }
}

/// What `spender` may still take from an owner's balance, and the last
/// ledger at which it may.
#[derive(Clone, Copy, Debug, PartialEq, Eq, Structural)]
pub struct AllowanceValue {
    pub amount: i128,
    pub expiration_ledger: u32,
}

/// One account's stake in the staking pool.
#[derive(Clone, Copy, Debug, PartialEq, Eq, Structural)]
pub struct StakeInfo {
    pub amount: i128,
    pub since_ledger: u32,
    pub last_claim_ledger: u32,
    /// The pool's reward index when the reward was last settled.
    pub reward_index: u64,
}

impl StakeInfo {
    pub open spec fn wf(self, now: u32) -> bool {
        &&& self.amount > 0
        &&& self.since_ledger <= now
        &&& self.last_claim_ledger <= now
    }
}

/// Configuration and running total of the staking pool.
#[derive(Clone, Copy, Debug, PartialEq, Eq, Structural)]
pub struct PoolInfo {
    pub token_id: AccountId,
    pub reward_token_id: AccountId,
    /// Reward in basis points of the stake per elapsed tick.
    pub reward_rate: u32,
    pub total_staked: i128,
    pub min_stake_duration: u32,
    /// Reward per staked unit, in basis points, accrued from the pool's
    /// creation up to `index_ledger`. A rate change settles the index
    /// first, so it prices only later ticks.
    pub reward_index: u64,
    pub index_ledger: u32,
}

/// Aggregates and rates of the lending market. Rates are in basis points.
#[derive(Clone, Copy, Debug, PartialEq, Eq, Structural)]
pub struct LendingPool {
    pub total_supplied: i128,
    pub total_borrowed: i128,
    pub supply_rate: u32,
    pub borrow_rate: u32,
    pub utilization_rate: u32,
    pub reserve_factor: u32,
    pub last_update_ledger: u32,
    pub collateral_factor: u32,
}

/// One account's deposit in the lending market.
#[derive(Clone, Copy, Debug, PartialEq, Eq, Structural)]
pub struct UserSupply {
    pub amount: i128,
    pub last_update_ledger: u32,
    pub accrued_interest: i128,
}

impl UserSupply {
    pub open spec fn wf(self, now: u32) -> bool {
        &&& self.amount >= 0
        &&& self.accrued_interest >= 0
        &&& self.last_update_ledger <= now
    }
}

/// One account's loan and the collateral that backs it.
#[derive(Clone, Copy, Debug, PartialEq, Eq, Structural)]
pub struct UserBorrow {
    pub amount: i128,
    pub last_update_ledger: u32,
    pub accrued_interest: i128,
    pub collateral_deposited: i128,
}

impl UserBorrow {
    pub open spec fn wf(self, now: u32) -> bool {
        &&& self.amount >= 0
        &&& self.accrued_interest >= 0
        &&& self.collateral_deposited >= 0
        &&& self.last_update_ledger <= now
    }

    /// Principal plus accrued interest.
    pub open spec fn debt(self) -> int {
        self.amount + self.accrued_interest
    }
}

/// What a committed operation announces.
#[derive(Clone, Copy, Debug, PartialEq, Eq, Structural)]
pub enum EventKind {
    Mint,
    SetAdmin,
    Approve,
    Transfer,
    Burn,
    FreezeAccount,
    UnfreezeAccount,
    CreateVesting,
    ClaimVesting,
    RevokeVesting,
    InitializeStaking,
    UpdateRewardRate,
    UpdateMinDuration,
    Stake,
    ClaimReward,
    Unstake,
    EmergencyWithdraw,
    InitializeLending,
    Supply,
    Withdraw,
    Borrow,
    Repay,
    Liquidate,
    AddCollateral,
    RemoveCollateral,
    UpdateLendingRates,
    UpdateLiquidationParams,
    UpdateCollateralFactor,
    DynamicRateUpdate,
    WithdrawReserves,
    EmergencyWithdrawLending,
    BatchLiquidate,
    ManualInterestAccrual,
}

/// A notification record: its kind, the account the operation acted for, and
/// an amount (zero where the operation has no natural amount).
#[derive(Clone, Copy, Debug, PartialEq, Eq, Structural)]
pub struct Event {
    pub kind: EventKind,
    pub actor: AccountId,
    pub amount: i128,
}

} // verus!
