use vstd::arithmetic::power::pow;
use vstd::prelude::*;

use crate::key::AccountKey;
use crate::stake_account::{accrue, update_points, StakeAccount, StakeError, TOKEN_DECIMALS};

verus! {

/// Reward base units minted per claimed point: `10^TOKEN_DECIMALS`.
pub const REWARD_UNITS_PER_POINT: u64 = 1_000_000;

/// `REWARD_UNITS_PER_POINT` is ten to the power of the reward asset's decimals.
pub proof fn lemma_reward_units_per_point()
    ensures
        REWARD_UNITS_PER_POINT == pow(10, TOKEN_DECIMALS as nat),
{
    reveal_with_fuel(pow, 7);
}

/// The record after staking `amount` more at `current_epoch`: points are accrued over
/// the principal held before, then the principal grows.
pub open spec fn stake_outcome(account: StakeAccount, amount: u64, current_epoch: u64) -> Result<
    StakeAccount,
    StakeError,
> {
    if amount == 0 {
        Err(StakeError::InvalidAmount)
    } else {
        match accrue(account, current_epoch) {
            Ok(a) => if a.staked_amount + amount > u64::MAX {
                Err(StakeError::Overflow)
            } else {
                Ok(StakeAccount { staked_amount: (a.staked_amount + amount) as u64, ..a })
            },
            Err(e) => Err(e),
        }
    }
}

/// The record after unstaking `amount` at `current_epoch`: points are accrued over the
/// principal held before, then the principal shrinks.
pub open spec fn unstake_outcome(account: StakeAccount, amount: u64, current_epoch: u64) -> Result<
    StakeAccount,
    StakeError,
> {
    if amount == 0 {
        Err(StakeError::InvalidAmount)
    } else if account.staked_amount < amount {
        Err(StakeError::InsufficientStake)
    } else {
        match accrue(account, current_epoch) {
            Ok(a) => Ok(StakeAccount { staked_amount: (a.staked_amount - amount) as u64, ..a }),
            Err(e) => Err(e),
        }
    }
}

/// The reward minted by a claim at `current_epoch`, and the record after it: every
/// accrued point is worth `10^TOKEN_DECIMALS` reward base units, and the points are reset.
pub open spec fn claim_outcome(account: StakeAccount, current_epoch: u64) -> Result<
    (u64, StakeAccount),
    StakeError,
> {
    match accrue(account, current_epoch) {
        Ok(a) => if a.total_points == 0 {
            Err(StakeError::InsufficientTokenPoints)
        } else if a.total_points * pow(10, TOKEN_DECIMALS as nat) > u64::MAX {
            Err(StakeError::Overflow)
        } else {
            Ok(
                (
                    (a.total_points * pow(10, TOKEN_DECIMALS as nat)) as u64,
                    StakeAccount { total_points: 0, ..a },
                ),
            )
        },
        Err(e) => Err(e),
    }
}

/// The stake record being created for a participant.
pub struct CreateStakeAccount {
    pub stake_account: StakeAccount,
}

impl CreateStakeAccount {
    /// Sets up a zeroed record owned by `signer_public_key`.
    pub fn initialize_stake_account(&mut self, signer_public_key: &AccountKey, bump: u8)
        ensures
            final(self).stake_account == (StakeAccount {
                owner: *signer_public_key,
                staked_amount: 0,
                total_points: 0,
                last_update_epoch: 0,
                bump: bump,
            }),
    {
        self.stake_account = StakeAccount {
            owner: *signer_public_key,
            staked_amount: 0,
            total_points: 0,
            last_update_epoch: 0,
            bump,
        };
    }
}

/// The participant's stake record, for a stake.
pub struct Stake {
    pub user_stake_account: StakeAccount,
}

impl Stake {
    /// Stakes `amount` more base units at `current_epoch`. On failure the record is
    /// left as it was.
    pub fn stake(&mut self, amount: u64, current_epoch: u64) -> (r: Result<(), StakeError>)
        ensures
            match stake_outcome(old(self).user_stake_account, amount, current_epoch) {
                Ok(a) => r == Ok::<(), StakeError>(()) && final(self).user_stake_account == a,
                Err(e) => r == Err::<(), StakeError>(e) && *final(self) == *old(self),
            },
            final(self).user_stake_account.total_points >= old(self).user_stake_account.total_points,
    {
        if !(amount > 0) {
            return Err(StakeError::InvalidAmount);
        }
        let mut account = self.user_stake_account;
        match update_points(&mut account, current_epoch) {
            Ok(()) => {},
            Err(e) => return Err(e),
        }
        account.staked_amount = match account.staked_amount.checked_add(amount) {
            Some(v) => v,
            None => return Err(StakeError::Overflow),
        };
        self.user_stake_account = account;
        Ok(())
    }
}

/// The participant's stake record, for an unstake.
pub struct Unstake {
    pub user_stake_account: StakeAccount,
}

impl Unstake {
    /// Unstakes `amount` base units at `current_epoch`. On failure the record is left
    /// as it was.
    pub fn unstake(&mut self, amount: u64, current_epoch: u64) -> (r: Result<(), StakeError>)
        ensures
            match unstake_outcome(old(self).user_stake_account, amount, current_epoch) {
                Ok(a) => r == Ok::<(), StakeError>(()) && final(self).user_stake_account == a,
                Err(e) => r == Err::<(), StakeError>(e) && *final(self) == *old(self),
            },
            final(self).user_stake_account.total_points >= old(self).user_stake_account.total_points,
    {
        if !(amount > 0) {
            return Err(StakeError::InvalidAmount);
        }
        if !(self.user_stake_account.staked_amount >= amount) {
            return Err(StakeError::InsufficientStake);
        }
        let mut account = self.user_stake_account;
        match update_points(&mut account, current_epoch) {
            Ok(()) => {},
            Err(e) => return Err(e),
        }
        account.staked_amount = match account.staked_amount.checked_sub(amount) {
            Some(v) => v,
            None => return Err(StakeError::Underflow),
        };
        self.user_stake_account = account;
        Ok(())
    }
}

/// The participant's stake record, for a claim.
pub struct ClaimReward {
    pub user_stake_account: StakeAccount,
}

impl ClaimReward {
    /// Converts every accrued point, as of `current_epoch`, into reward base units,
    /// returns that amount to mint and resets the points. On failure the record is
    /// left as it was.
    pub fn claim_reward(&mut self, current_epoch: u64) -> (r: Result<u64, StakeError>)
        ensures
            match claim_outcome(old(self).user_stake_account, current_epoch) {
                Ok((reward, a)) => r == Ok::<u64, StakeError>(reward) && final(self).user_stake_account
                    == a,
                Err(e) => r == Err::<u64, StakeError>(e) && *final(self) == *old(self),
            },
            r is Ok ==> final(self).user_stake_account.total_points == 0,
    {
        proof {
            lemma_reward_units_per_point();
        }
        let mut account = self.user_stake_account;
        match update_points(&mut account, current_epoch) {
            Ok(()) => {},
            Err(e) => return Err(e),
        }
        let tokens_to_mint = account.total_points;
        if !(tokens_to_mint > 0) {
            return Err(StakeError::InsufficientTokenPoints);
        }
        let reward_amount = match tokens_to_mint.checked_mul(REWARD_UNITS_PER_POINT) {
            Some(v) => v,
            None => return Err(StakeError::Overflow),
        };
        account.total_points = 0;
        account.last_update_epoch = current_epoch;
        self.user_stake_account = account;
        Ok(reward_amount)
    }
}

} // verus!
