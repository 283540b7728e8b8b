use vstd::prelude::*;

verus! {

/// Every way an operation can be refused. A refused operation changes nothing.
#[derive(Clone, Copy, Debug, PartialEq, Eq, Structural)]
pub enum TokenError {
    /// The caller is not the principal the operation requires.
    Unauthorized,
    /// An amount that must not be negative is negative.
    NegativeAmount,
    /// An amount that must be positive is zero or negative.
    NonPositiveAmount,
    /// The token metadata decimal does not fit in a byte.
    InvalidDecimal,
    /// A vesting schedule with end <= start, or with a cliff before its start.
    InvalidSchedule,
    /// A configuration value makes a formula undefined (a reserve factor
    /// above 100%).
    InvalidParameter,
    /// The singleton record the operation needs was never initialised.
    NotInitialized,
    /// The singleton record was initialised already.
    AlreadyInitialized,
    /// An allowance with a positive amount would expire before now.
    InvalidExpiration,
    /// The spender's allowance is smaller than the amount.
    InsufficientAllowance,
    /// The paying account does not hold enough.
    InsufficientBalance,
    /// The paying account is frozen.
    AccountFrozen,
    /// A result does not fit its integer type.
    Overflow,
    /// Nothing is claimable from a vesting schedule now.
    NothingToClaim,
    /// The account has no vesting schedule.
    NoVestingSchedule,
    /// The account has no stake.
    NoStake,
    /// The unstake amount exceeds the stake.
    ExceedsStake,
    /// The stake has not been held for the minimum duration.
    MinStakeDurationNotMet,
    /// No reward has accrued.
    NoRewards,
    /// The account has no supply position.
    NoSupply,
    /// The account has no borrow position.
    NoBorrow,
    /// The withdrawal exceeds principal plus accrued interest.
    InsufficientSupply,
    /// The pool does not hold enough unborrowed funds.
    InsufficientLiquidity,
    /// The collateral does not cover the debt.
    InsufficientCollateral,
    /// Removing the collateral would leave the debt uncovered.
    UnsafeCollateralRemoval,
    /// The position is healthy and cannot be liquidated.
    PositionHealthy,
    /// The seizure exceeds the deposited collateral.
    InsufficientCollateralToSeize,
    /// The withdrawal exceeds the available reserves.
    InsufficientReserves,
    /// A batch holds more targets than allowed.
    TooManyTargets,
}

} // verus!
