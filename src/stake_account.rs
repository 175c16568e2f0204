use vstd::prelude::*;

use crate::key::AccountKey;

verus! {

/// Base units of the staked asset in one whole unit.
pub const LAMPORTS_PER_SOL: u64 = 1_000_000_000;

/// Points (in millionths) earned per whole staked unit per epoch.
pub const POINTS_PER_SOL_PER_EPOCH: u64 = 1_000_000;

/// Decimal places of the reward asset: a point is worth `10^TOKEN_DECIMALS` base units.
pub const TOKEN_DECIMALS: u32 = 6;

/// Why a staking operation was refused.
#[derive(Clone, Copy, Debug, PartialEq, Eq, Structural)]
pub enum StakeError {
    /// An amount that must be positive is zero.
    InvalidAmount,
    /// An unstake asks for more than is staked.
    InsufficientStake,
    /// The caller does not own the stake record.
    Unauthorized,
    /// A checked addition or multiplication would exceed 64 bits.
    Overflow,
    /// A checked subtraction would go below zero.
    Underflow,
    /// The given epoch is earlier than the record's last checkpoint.
    InvalidEpoch,
    /// A claim with no accrued points.
    InsufficientTokenPoints,
    /// The reward asset is not minted by the program's authority.
    InvalidMintAuthority,
    /// The receiving account does not hold the reward asset.
    InvalidTokenAccount,
    /// The receiving account is not the caller's.
    InvalidOwner,
}

/// The persistent record of one staking participant.
#[derive(Clone, Copy, Debug, PartialEq, Eq)]
pub struct StakeAccount {
    pub owner: AccountKey,
    /// Principal currently staked, in base units.
    pub staked_amount: u64,
    /// Accrued, unclaimed points.
    pub total_points: u64,
    /// The epoch of the last accrual checkpoint.
    pub last_update_epoch: u64,
    pub bump: u8,
}

/// Points earned by `staked_amount` base units held for `epochs_elapsed` epochs,
/// rounded down.
pub open spec fn points_earned(staked_amount: u64, epochs_elapsed: u64) -> int {
    staked_amount * epochs_elapsed * POINTS_PER_SOL_PER_EPOCH / (LAMPORTS_PER_SOL as int)
}

/// The record after an accrual checkpoint at `current_epoch`: the points earned since
/// the last checkpoint are added and the checkpoint moves to `current_epoch`. An epoch
/// before the checkpoint, or a point total beyond 64 bits, is refused.
pub open spec fn accrue(account: StakeAccount, current_epoch: u64) -> Result<
    StakeAccount,
    StakeError,
> {
    if current_epoch < account.last_update_epoch {
        Err(StakeError::InvalidEpoch)
    } else if account.total_points + points_earned(
        account.staked_amount,
        (current_epoch - account.last_update_epoch) as u64,
    ) > u64::MAX {
        Err(StakeError::Overflow)
    } else {
        Ok(
            StakeAccount {
                total_points: (account.total_points + points_earned(
                    account.staked_amount,
                    (current_epoch - account.last_update_epoch) as u64,
                )) as u64,
                last_update_epoch: current_epoch,
                ..account
            },
        )
    }
}

/// Nothing is earned over no time or with nothing staked.
proof fn lemma_points_earned_zero(staked_amount: u64, epochs_elapsed: u64)
    requires
        staked_amount == 0 || epochs_elapsed == 0,
    ensures
        points_earned(staked_amount, epochs_elapsed) == 0,
{
    assert(staked_amount * epochs_elapsed == 0) by (nonlinear_arith)
        requires
            staked_amount == 0 || epochs_elapsed == 0,
    ;
}

/// Points earned by `staked_amount` base units over `epochs_elapsed` epochs, computed
/// in 128 bits; refused when the result does not fit in 64 bits.
pub fn calculate_points_earned(staked_amount: u64, epochs_elapsed: u64) -> (r: Result<
    u64,
    StakeError,
>)
    ensures
        points_earned(staked_amount, epochs_elapsed) <= u64::MAX ==> r == Ok::<u64, StakeError>(
            points_earned(staked_amount, epochs_elapsed) as u64,
        ),
        points_earned(staked_amount, epochs_elapsed) > u64::MAX ==> r == Err::<u64, StakeError>(
            StakeError::Overflow,
        ),
{
    let ghost product = staked_amount * epochs_elapsed * POINTS_PER_SOL_PER_EPOCH;
    assert(staked_amount * epochs_elapsed <= u64::MAX * u64::MAX) by (nonlinear_arith)
        requires
            staked_amount <= u64::MAX,
            epochs_elapsed <= u64::MAX,
    ;
    let held: u128 = (staked_amount as u128) * (epochs_elapsed as u128);
    let scaled = match held.checked_mul(POINTS_PER_SOL_PER_EPOCH as u128) {
        Some(v) => v,
        None => {
            assert(product / (LAMPORTS_PER_SOL as int) > u64::MAX) by (nonlinear_arith)
                requires
                    product > u128::MAX,
            ;
            return Err(StakeError::Overflow);
        },
    };
    let points = scaled / (LAMPORTS_PER_SOL as u128);
    if points > u64::MAX as u128 {
        return Err(StakeError::Overflow);
    }
    Ok(points as u64)
}

/// Accrual checkpoint: adds the points earned since the last checkpoint and moves the
/// checkpoint to `current_epoch`, even when nothing was earned. On failure the record
/// is left as it was.
pub fn update_points(pda_account: &mut StakeAccount, current_epoch: u64) -> (r: Result<
    (),
    StakeError,
>)
    ensures
        match accrue(*old(pda_account), current_epoch) {
            Ok(a) => r == Ok::<(), StakeError>(()) && *final(pda_account) == a,
            Err(e) => r == Err::<(), StakeError>(e) && *final(pda_account) == *old(pda_account),
        },
        final(pda_account).total_points >= old(pda_account).total_points,
        final(pda_account).last_update_epoch >= old(pda_account).last_update_epoch,
        final(pda_account).staked_amount == old(pda_account).staked_amount,
{
    let epochs_elapsed = match current_epoch.checked_sub(pda_account.last_update_epoch) {
        Some(v) => v,
        None => return Err(StakeError::InvalidEpoch),
    };
    if epochs_elapsed > 0 && pda_account.staked_amount > 0 {
        let new_points = match calculate_points_earned(pda_account.staked_amount, epochs_elapsed) {
            Ok(p) => p,
            Err(e) => return Err(e),
        };
        pda_account.total_points = match pda_account.total_points.checked_add(new_points) {
            Some(v) => v,
            None => return Err(StakeError::Overflow),
        };
    } else {
        proof {
            lemma_points_earned_zero(pda_account.staked_amount, epochs_elapsed);
        }
    }
    pda_account.last_update_epoch = current_epoch;
    Ok(())
}

/// A checkpoint taken twice at the same epoch: the second one changes nothing, neither
/// the points nor the checkpoint.
pub proof fn lemma_accrue_idempotent(account: StakeAccount, current_epoch: u64)
    requires
        accrue(account, current_epoch) is Ok,
    ensures
        accrue(accrue(account, current_epoch)->Ok_0, current_epoch) == accrue(
            account,
            current_epoch,
        ),
{
    let once = accrue(account, current_epoch)->Ok_0;
    lemma_points_earned_zero(once.staked_amount, 0);
    assert(accrue(once, current_epoch)->Ok_0 == once);
}

} // verus!
