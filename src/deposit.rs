use vstd::prelude::*;

use crate::amm::{pool_wf, AMMError, AMM};
use crate::math::{binary_search_sqrt, floor_sqrt};

verus! {

/// Shares minted for depositing `(quantity_a, quantity_b)` into a pool with
/// `lp_supply` outstanding shares and reserves `(reserve_a, reserve_b)` read before
/// the deposit.
///
/// The first deposit mints the geometric mean of the two quantities. Later ones must
/// match the pool's ratio exactly and mint the same fraction of the supply as they add
/// to each reserve.
pub open spec fn deposit_shares(
    lp_supply: u64,
    reserve_a: u64,
    reserve_b: u64,
    quantity_a: u64,
    quantity_b: u64,
) -> Result<u64, AMMError> {
    if quantity_a == 0 || quantity_b == 0 {
        Err(AMMError::InvalidQuantity)
    } else if lp_supply == 0 {
        Ok(floor_sqrt((quantity_a * quantity_b) as nat) as u64)
    } else if quantity_a * reserve_b != quantity_b * reserve_a {
        Err(AMMError::InvalidLiquidity)
    } else if lp_supply * quantity_a > u64::MAX || reserve_a == 0
        || lp_supply * quantity_b > u64::MAX || reserve_b == 0 {
        Err(AMMError::ArithmeticOverflow)
    } else if lp_supply * quantity_a / (reserve_a as int)
        != lp_supply * quantity_b / (reserve_b as int) {
        Err(AMMError::InvalidLiquidity)
    } else {
        Ok((lp_supply * quantity_a / (reserve_a as int)) as u64)
    }
}

/// The result of a deposit: the shares of `deposit_shares`, unless the new supply or a
/// new reserve would not fit in 64 bits.
pub open spec fn deposit_outcome(
    lp_supply: u64,
    reserve_a: u64,
    reserve_b: u64,
    quantity_a: u64,
    quantity_b: u64,
) -> Result<u64, AMMError> {
    match deposit_shares(lp_supply, reserve_a, reserve_b, quantity_a, quantity_b) {
        Ok(shares) => if lp_supply + shares > u64::MAX || reserve_a + quantity_a > u64::MAX
            || reserve_b + quantity_b > u64::MAX {
            Err(AMMError::ArithmeticOverflow)
        } else {
            Ok(shares)
        },
        Err(e) => Err(e),
    }
}

/// The accounts that a deposit touches, as plain values: the pool record and the
/// balances of its two reserves.
pub struct Deposit {
    pub amm: AMM,
    pub reserve_a_amount: u64,
    pub reserve_b_amount: u64,
}

/// The product of two 64-bit values fits in 128 bits.
proof fn lemma_u64_product_fits(x: u64, y: u64)
    ensures
        x * y <= u128::MAX,
{
    assert(x * y <= u64::MAX * u64::MAX) by (nonlinear_arith)
        requires
            x <= u64::MAX,
            y <= u64::MAX,
    ;
}

impl Deposit {
    /// Deposits `quantity_a` of asset A and `quantity_b` of asset B and returns the
    /// number of liquidity shares to mint to the depositor. On success the reserves
    /// hold the deposited quantities and the supply counts the new shares; on failure
    /// nothing changes.
    pub fn deposit(&mut self, quantity_a: u64, quantity_b: u64) -> (r: Result<u64, AMMError>)
        ensures
            r == deposit_outcome(
                old(self).amm.lp_supply,
                old(self).reserve_a_amount,
                old(self).reserve_b_amount,
                quantity_a,
                quantity_b,
            ),
            r matches Ok(shares) ==> final(self).amm == (AMM {
                lp_supply: (old(self).amm.lp_supply + shares) as u64,
                ..old(self).amm
            }) && final(self).reserve_a_amount == old(self).reserve_a_amount + quantity_a
                && final(self).reserve_b_amount == old(self).reserve_b_amount + quantity_b,
            r is Err ==> *final(self) == *old(self),
            pool_wf(old(self).amm.lp_supply, old(self).reserve_a_amount, old(self).reserve_b_amount)
                ==> pool_wf(
                final(self).amm.lp_supply,
                final(self).reserve_a_amount,
                final(self).reserve_b_amount,
            ),
    {
        if !(quantity_a > 0 && quantity_b > 0) {
            return Err(AMMError::InvalidQuantity);
        }
        let lp_supply = self.amm.lp_supply;
        let reserve_a = self.reserve_a_amount;
        let reserve_b = self.reserve_b_amount;
        let tokens_to_issue: u64;
        if lp_supply == 0 {
            proof {
                lemma_u64_product_fits(quantity_a, quantity_b);
            }
            let value: u128 = (quantity_a as u128) * (quantity_b as u128);
            tokens_to_issue = binary_search_sqrt(value);
        } else {
            proof {
                lemma_u64_product_fits(quantity_a, reserve_b);
                lemma_u64_product_fits(quantity_b, reserve_a);
            }
            // the ratio check is exact: both products fit in 128 bits
            if (quantity_a as u128) * (reserve_b as u128)
                != (quantity_b as u128) * (reserve_a as u128) {
                return Err(AMMError::InvalidLiquidity);
            }
            let lp_tokens_a = match lp_supply.checked_mul(quantity_a) {
                Some(v) => match v.checked_div(reserve_a) {
                    Some(q) => q,
                    None => return Err(AMMError::ArithmeticOverflow),
                },
                None => return Err(AMMError::ArithmeticOverflow),
            };
            let lp_tokens_b = match lp_supply.checked_mul(quantity_b) {
                Some(v) => match v.checked_div(reserve_b) {
                    Some(q) => q,
                    None => return Err(AMMError::ArithmeticOverflow),
                },
                None => return Err(AMMError::ArithmeticOverflow),
            };
            if lp_tokens_a != lp_tokens_b {
                return Err(AMMError::InvalidLiquidity);
            }
            tokens_to_issue = lp_tokens_a;
        }
        let new_supply = match lp_supply.checked_add(tokens_to_issue) {
            Some(v) => v,
            None => return Err(AMMError::ArithmeticOverflow),
        };
        let new_reserve_a = match reserve_a.checked_add(quantity_a) {
            Some(v) => v,
            None => return Err(AMMError::ArithmeticOverflow),
        };
        let new_reserve_b = match reserve_b.checked_add(quantity_b) {
            Some(v) => v,
            None => return Err(AMMError::ArithmeticOverflow),
        };
        proof {
            if lp_supply == 0 {
                crate::math::lemma_floor_sqrt_range((quantity_a * quantity_b) as nat);
                assert(quantity_a * quantity_b > 0) by (nonlinear_arith)
                    requires
                        quantity_a > 0,
                        quantity_b > 0,
                ;
            }
        }
        self.amm.lp_supply = new_supply;
        self.reserve_a_amount = new_reserve_a;
        self.reserve_b_amount = new_reserve_b;
        Ok(tokens_to_issue)
    }
}

} // verus!
