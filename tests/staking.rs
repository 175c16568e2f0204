use amm_staking::{
    calculate_points_earned, update_points, AccountKey, ClaimReward, CreateStakeAccount, Stake, StakeAccount,
    StakeError, Unstake,
};

const ONE_SOL: u64 = 1_000_000_000;

fn account(staked_amount: u64, total_points: u64, last_update_epoch: u64) -> StakeAccount {
    StakeAccount { owner: AccountKey { bytes: [9; 32] }, staked_amount, total_points, last_update_epoch, bump: 255 }
}

#[test]
fn create_gives_zeroed_record() {
    let mut ctx = CreateStakeAccount { stake_account: account(5, 6, 7) };
    let owner = AccountKey { bytes: [3; 32] };
    ctx.initialize_stake_account(&owner, 250);
    assert_eq!(ctx.stake_account, StakeAccount { owner, staked_amount: 0, total_points: 0, last_update_epoch: 0, bump: 250 });
}

#[test]
fn points_per_whole_unit_per_epoch() {
    assert_eq!(calculate_points_earned(ONE_SOL, 1), Ok(1_000_000));
    assert_eq!(calculate_points_earned(3 * ONE_SOL, 4), Ok(12_000_000));
    assert_eq!(calculate_points_earned(ONE_SOL / 2, 1), Ok(500_000));
    assert_eq!(calculate_points_earned(1, 1), Ok(0));
    assert_eq!(calculate_points_earned(999, 1), Ok(0));
    assert_eq!(calculate_points_earned(1000, 1), Ok(1));
    assert_eq!(calculate_points_earned(0, 100), Ok(0));
}

#[test]
fn points_overflow_near_u64_bound() {
    assert_eq!(calculate_points_earned(u64::MAX, u64::MAX), Err(StakeError::Overflow));
    assert_eq!(calculate_points_earned(u64::MAX, 1000), Ok(u64::MAX));
    assert_eq!(calculate_points_earned(u64::MAX, 1001), Err(StakeError::Overflow));
    // u64::MAX * 1000 / 1000 fits exactly
    assert_eq!(calculate_points_earned(u64::MAX, 1), Ok(u64::MAX / 1000));
}

#[test]
fn accrual_adds_points_and_moves_checkpoint() {
    let mut a = account(2 * ONE_SOL, 5, 10);
    assert_eq!(update_points(&mut a, 13), Ok(()));
    assert_eq!(a.total_points, 5 + 6_000_000);
    assert_eq!(a.last_update_epoch, 13);
    assert_eq!(a.staked_amount, 2 * ONE_SOL);
}

#[test]
fn accrual_moves_checkpoint_with_nothing_staked() {
    let mut a = account(0, 5, 10);
    assert_eq!(update_points(&mut a, 20), Ok(()));
    assert_eq!(a.total_points, 5);
    assert_eq!(a.last_update_epoch, 20);
}

#[test]
fn accrual_twice_at_same_epoch_changes_nothing() {
    let mut a = account(7 * ONE_SOL, 11, 2);
    assert_eq!(update_points(&mut a, 9), Ok(()));
    let once = a;
    assert_eq!(update_points(&mut a, 9), Ok(()));
    assert_eq!(a, once);
    assert_eq!(a.total_points, 11 + 49_000_000);
    assert_eq!(a.last_update_epoch, 9);
}

#[test]
fn accrual_before_checkpoint_is_refused() {
    let mut a = account(ONE_SOL, 1, 10);
    assert_eq!(update_points(&mut a, 9), Err(StakeError::InvalidEpoch));
    assert_eq!(a, account(ONE_SOL, 1, 10));
}

#[test]
fn accrual_total_overflow_is_refused() {
    let mut a = account(ONE_SOL, u64::MAX, 0);
    assert_eq!(update_points(&mut a, 1), Err(StakeError::Overflow));
    assert_eq!(a, account(ONE_SOL, u64::MAX, 0));
}

#[test]
fn stake_accrues_over_previous_principal() {
    let mut ctx = Stake { user_stake_account: account(ONE_SOL, 0, 4) };
    assert_eq!(ctx.stake(ONE_SOL, 6), Ok(()));
    assert_eq!(ctx.user_stake_account.staked_amount, 2 * ONE_SOL);
    assert_eq!(ctx.user_stake_account.total_points, 2_000_000);
    assert_eq!(ctx.user_stake_account.last_update_epoch, 6);
}

#[test]
fn stake_of_zero_is_refused() {
    let mut ctx = Stake { user_stake_account: account(ONE_SOL, 0, 4) };
    assert_eq!(ctx.stake(0, 6), Err(StakeError::InvalidAmount));
    assert_eq!(ctx.user_stake_account, account(ONE_SOL, 0, 4));
}

#[test]
fn stake_principal_overflow_leaves_record() {
    let mut ctx = Stake { user_stake_account: account(u64::MAX, 0, 4) };
    assert_eq!(ctx.stake(1, 4), Err(StakeError::Overflow));
    assert_eq!(ctx.user_stake_account, account(u64::MAX, 0, 4));
}

#[test]
fn stake_with_earlier_epoch_is_refused() {
    let mut ctx = Stake { user_stake_account: account(ONE_SOL, 0, 4) };
    assert_eq!(ctx.stake(10, 3), Err(StakeError::InvalidEpoch));
}

#[test]
fn unstake_accrues_then_reduces_principal() {
    let mut ctx = Unstake { user_stake_account: account(3 * ONE_SOL, 10, 1) };
    assert_eq!(ctx.unstake(ONE_SOL, 2), Ok(()));
    assert_eq!(ctx.user_stake_account.staked_amount, 2 * ONE_SOL);
    assert_eq!(ctx.user_stake_account.total_points, 10 + 3_000_000);
    assert_eq!(ctx.user_stake_account.last_update_epoch, 2);
}

#[test]
fn unstake_more_than_staked_is_refused() {
    let mut ctx = Unstake { user_stake_account: account(5, 0, 1) };
    assert_eq!(ctx.unstake(6, 2), Err(StakeError::InsufficientStake));
    assert_eq!(ctx.unstake(0, 2), Err(StakeError::InvalidAmount));
    assert_eq!(ctx.user_stake_account, account(5, 0, 1));
}

#[test]
fn points_never_fall_over_stake_and_unstake() {
    let mut a = account(0, 0, 0);
    let mut last = 0;
    for (epoch, stake_amount, unstake_amount) in [(1u64, ONE_SOL, 0u64), (3, 0, ONE_SOL / 2), (3, 5, 0), (8, 0, 7), (20, ONE_SOL, 0)] {
        if stake_amount > 0 {
            let mut ctx = Stake { user_stake_account: a };
            ctx.stake(stake_amount, epoch).unwrap();
            a = ctx.user_stake_account;
        }
        if unstake_amount > 0 {
            let mut ctx = Unstake { user_stake_account: a };
            ctx.unstake(unstake_amount, epoch).unwrap();
            a = ctx.user_stake_account;
        }
        assert!(a.total_points >= last);
        last = a.total_points;
    }
    assert!(last > 0);
}

#[test]
fn claim_converts_points_and_resets() {
    let mut ctx = ClaimReward { user_stake_account: account(2 * ONE_SOL, 0, 3) };
    assert_eq!(ctx.claim_reward(5), Ok(4_000_000_000_000));
    assert_eq!(ctx.user_stake_account.total_points, 0);
    assert_eq!(ctx.user_stake_account.last_update_epoch, 5);
    assert_eq!(ctx.user_stake_account.staked_amount, 2 * ONE_SOL);
}

#[test]
fn claim_without_points_is_refused() {
    let mut ctx = ClaimReward { user_stake_account: account(0, 0, 3) };
    assert_eq!(ctx.claim_reward(5), Err(StakeError::InsufficientTokenPoints));
    assert_eq!(ctx.user_stake_account, account(0, 0, 3));
}

#[test]
fn claim_reward_overflow_keeps_points() {
    let mut ctx = ClaimReward { user_stake_account: account(0, u64::MAX / 1_000_000 + 1, 3) };
    assert_eq!(ctx.claim_reward(3), Err(StakeError::Overflow));
    assert_eq!(ctx.user_stake_account.total_points, u64::MAX / 1_000_000 + 1);
    let mut ctx = ClaimReward { user_stake_account: account(0, u64::MAX / 1_000_000, 3) };
    assert_eq!(ctx.claim_reward(3), Ok((u64::MAX / 1_000_000) * 1_000_000));
}

#[test]
fn claim_before_checkpoint_is_refused() {
    let mut ctx = ClaimReward { user_stake_account: account(ONE_SOL, 50, 3) };
    assert_eq!(ctx.claim_reward(2), Err(StakeError::InvalidEpoch));
    assert_eq!(ctx.user_stake_account.total_points, 50);
}
