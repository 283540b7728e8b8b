//! Accounting core of a token protocol: linear vesting grants, a staking pool
//! with time-proportional rewards, and a collateralised lending market, all
//! running against one shared balance ledger and a logical clock.

pub mod error;
pub mod types;
pub mod math;
pub mod ledger;
pub mod token;

pub use error::TokenError;
pub use token::{check_nonnegative_amount, Token};
pub use types::{
    AccountId, AllowanceValue, Event, EventKind, LendingPool, PoolInfo, StakeInfo, UserBorrow, UserSupply,
    VestingSchedule,
};
