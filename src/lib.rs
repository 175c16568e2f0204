//! Accounting core of a constant-product liquidity pool and of a
//! time-accruing staking ledger, in checked integer arithmetic.

pub mod amm;
pub mod deposit;
pub mod key;
pub mod math;
pub mod stake_account;
pub mod staking;
pub mod swap;
pub mod withdraw;

pub use amm::{AMMError, Initialize, AMM};
pub use deposit::Deposit;
pub use key::AccountKey;
pub use math::binary_search_sqrt;
pub use stake_account::{calculate_points_earned, update_points, StakeAccount, StakeError};
pub use staking::{ClaimReward, CreateStakeAccount, Stake, Unstake};
pub use swap::Swap;
pub use withdraw::{Withdraw, Withdrawal};
