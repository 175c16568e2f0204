use vstd::prelude::*;

use crate::amm::{pool_wf, AMMError, AMM};
use crate::deposit::deposit_outcome;
use crate::math::{floor_sqrt, lemma_floor_sqrt_range};

verus! {

/// What a withdrawal hands back.
#[derive(Clone, Copy, Debug, PartialEq, Eq, Structural)]
pub struct Withdrawal {
    /// Units of asset A to release from the pool to the withdrawer.
    pub quantity_a: u64,
    /// Units of asset B to release from the pool to the withdrawer.
    pub quantity_b: u64,
    /// Whether the withdrawer burned every share held, so that their share
    /// account can be closed.
    pub close_lp_account: bool,
}

/// The result of burning `shares` from a pool with `lp_supply` outstanding shares
/// and reserves `(reserve_a, reserve_b)`: each asset is released in proportion to
/// the shares burned, rounded down. Burning from an empty pool, more than the supply,
/// or with a product beyond 64 bits is refused.
pub open spec fn withdraw_outcome(
    lp_supply: u64,
    reserve_a: u64,
    reserve_b: u64,
    shares: u64,
    lp_token_amount: u64,
) -> Result<Withdrawal, AMMError> {
    if shares * reserve_a > u64::MAX || lp_supply == 0 || shares * reserve_b > u64::MAX || shares
        > lp_supply {
        Err(AMMError::ArithmeticOverflow)
    } else {
        Ok(
            Withdrawal {
                quantity_a: (shares * reserve_a / (lp_supply as int)) as u64,
                quantity_b: (shares * reserve_b / (lp_supply as int)) as u64,
                close_lp_account: shares == lp_token_amount,
            },
        )
    }
}

/// The accounts that a withdrawal touches, as plain values.
pub struct Withdraw {
    pub amm: AMM,
    pub reserve_a_amount: u64,
    pub reserve_b_amount: u64,
    /// The withdrawer's share balance before the withdrawal.
    pub lp_token_amount: u64,
}

/// A proportional slice `shares * reserve / supply` of a reserve is at most the
/// reserve, and less than it while some shares remain.
proof fn lemma_share_of_reserve(shares: int, reserve: int, supply: int)
    requires
        0 <= shares <= supply,
        supply > 0,
        reserve >= 0,
    ensures
        shares * reserve / supply <= reserve,
        shares < supply && reserve > 0 ==> shares * reserve / supply < reserve,
{
    let out = shares * reserve / supply;
    assert(out * supply <= shares * reserve && shares * reserve <= supply * reserve && out >= 0)
        by (nonlinear_arith)
        requires
            0 <= shares <= supply,
            supply > 0,
            reserve >= 0,
            out == shares * reserve / supply,
    ;
    assert(out <= reserve) by (nonlinear_arith)
        requires
            out * supply <= supply * reserve,
            supply > 0,
    ;
    if shares < supply && reserve > 0 {
        assert(out < reserve) by (nonlinear_arith)
            requires
                out * supply <= shares * reserve,
                shares < supply,
                reserve > 0,
                supply > 0,
        ;
    }
}

impl Withdraw {
    /// Burns `lp_token_quantity` shares and returns the quantities of each asset to
    /// release. On success the supply and both reserves are reduced accordingly; on
    /// failure nothing changes.
    pub fn withdraw(&mut self, lp_token_quantity: u64) -> (r: Result<Withdrawal, AMMError>)
        ensures
            r == withdraw_outcome(
                old(self).amm.lp_supply,
                old(self).reserve_a_amount,
                old(self).reserve_b_amount,
                lp_token_quantity,
                old(self).lp_token_amount,
            ),
            r matches Ok(w) ==> final(self).amm == (AMM {
                lp_supply: (old(self).amm.lp_supply - lp_token_quantity) as u64,
                ..old(self).amm
            }) && final(self).reserve_a_amount == old(self).reserve_a_amount - w.quantity_a
                && final(self).reserve_b_amount == old(self).reserve_b_amount - w.quantity_b
                && final(self).lp_token_amount == old(self).lp_token_amount,
            r is Err ==> *final(self) == *old(self),
            pool_wf(old(self).amm.lp_supply, old(self).reserve_a_amount, old(self).reserve_b_amount)
                ==> pool_wf(
                final(self).amm.lp_supply,
                final(self).reserve_a_amount,
                final(self).reserve_b_amount,
            ),
    {
        let lp_supply = self.amm.lp_supply;
        let token_a_to_release = match lp_token_quantity.checked_mul(self.reserve_a_amount) {
            Some(v) => match v.checked_div(lp_supply) {
                Some(q) => q,
                None => return Err(AMMError::ArithmeticOverflow),
            },
            None => return Err(AMMError::ArithmeticOverflow),
        };
        let token_b_to_release = match lp_token_quantity.checked_mul(self.reserve_b_amount) {
            Some(v) => match v.checked_div(lp_supply) {
                Some(q) => q,
                None => return Err(AMMError::ArithmeticOverflow),
            },
            None => return Err(AMMError::ArithmeticOverflow),
        };
        let new_supply = match lp_supply.checked_sub(lp_token_quantity) {
            Some(v) => v,
            None => return Err(AMMError::ArithmeticOverflow),
        };
        proof {
            lemma_share_of_reserve(
                lp_token_quantity as int,
                self.reserve_a_amount as int,
                lp_supply as int,
            );
            lemma_share_of_reserve(
                lp_token_quantity as int,
                self.reserve_b_amount as int,
                lp_supply as int,
            );
        }
        self.amm.lp_supply = new_supply;
        self.reserve_a_amount = self.reserve_a_amount - token_a_to_release;
        self.reserve_b_amount = self.reserve_b_amount - token_b_to_release;
        Ok(
            Withdrawal {
                quantity_a: token_a_to_release,
                quantity_b: token_b_to_release,
                close_lp_account: lp_token_quantity == self.lp_token_amount,
            },
        )
    }
}

/// Depositing `(quantity_a, quantity_b)` into an empty pool and then burning every
/// share it minted hands back exactly the deposited quantities, which empties the pool
/// again. Left out are the deposits whose minted shares times a quantity exceed 64
/// bits, which the withdrawal refuses.
pub proof fn lemma_genesis_round_trip(quantity_a: u64, quantity_b: u64)
    requires
        quantity_a > 0,
        quantity_b > 0,
        floor_sqrt((quantity_a * quantity_b) as nat) * quantity_a <= u64::MAX,
        floor_sqrt((quantity_a * quantity_b) as nat) * quantity_b <= u64::MAX,
    ensures
        deposit_outcome(0, 0, 0, quantity_a, quantity_b) is Ok,
        ({
            let shares = deposit_outcome(0, 0, 0, quantity_a, quantity_b)->Ok_0;
            &&& shares > 0
            &&& withdraw_outcome(shares, quantity_a, quantity_b, shares, shares) == Ok::<
                Withdrawal,
                AMMError,
            >(Withdrawal { quantity_a: quantity_a, quantity_b: quantity_b, close_lp_account: true })
        }),
{
    let v = (quantity_a * quantity_b) as nat;
    assert(quantity_a * quantity_b >= 1) by (nonlinear_arith)
        requires
            quantity_a > 0,
            quantity_b > 0,
    ;
    lemma_floor_sqrt_range(v);
    crate::math::lemma_floor_sqrt_bounds(v);
    let s = floor_sqrt(v) as int;
    assert(s <= u64::MAX) by (nonlinear_arith)
        requires
            s >= 1,
            s * quantity_a <= u64::MAX,
            quantity_a >= 1,
    ;
    assert(s * quantity_a / s == quantity_a && s * quantity_b / s == quantity_b) by (
    nonlinear_arith)
        requires
            s >= 1,
    ;
}

} // verus!
