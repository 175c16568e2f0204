use vstd::prelude::*;

use crate::key::AccountKey;

verus! {

/// Why a pool operation was refused.
#[derive(Clone, Copy, Debug, PartialEq, Eq, Structural)]
pub enum AMMError {
    /// The pool's two sides would hold the same asset.
    SameTokenMint,
    /// A checked arithmetic step would wrap, or divide by zero.
    ArithmeticOverflow,
    /// A quantity that must be positive is zero.
    InvalidQuantity,
    /// A deposit does not match the pool's current ratio.
    InvalidLiquidity,
}

/// The persistent record of one trading pair.
#[derive(Clone, Copy, Debug, PartialEq, Eq)]
pub struct AMM {
    pub token_a_mint: AccountKey,
    pub token_b_mint: AccountKey,
    pub lp_mint: AccountKey,
    pub lp_bump: u8,
    pub reserve_a: AccountKey,
    pub reserve_b: AccountKey,
    pub pool_authority: AccountKey,
    /// Outstanding liquidity shares; zero until the first deposit.
    pub lp_supply: u64,
}

/// A pool with outstanding shares holds some of both assets.
pub open spec fn pool_wf(lp_supply: u64, reserve_a_amount: u64, reserve_b_amount: u64) -> bool {
    lp_supply > 0 ==> reserve_a_amount > 0 && reserve_b_amount > 0
}

/// The accounts that creating a pool touches.
pub struct Initialize {
    /// The pool record being created.
    pub amm: AMM,
    pub token_a_mint: AccountKey,
    pub token_b_mint: AccountKey,
    pub lp_mint: AccountKey,
    pub reserve_a: AccountKey,
    pub reserve_b: AccountKey,
    pub pool_authority: AccountKey,
}

impl Initialize {
    /// Fills the pool record with the pair's accounts and no outstanding shares;
    /// refuses a pair whose two sides are the same asset, leaving the record as it was.
    pub fn initialize_amm_pool(&mut self, lp_bump: u8) -> (r: Result<(), AMMError>)
        ensures
            r is Err <==> old(self).token_a_mint.bytes@ == old(self).token_b_mint.bytes@,
            r is Err ==> r == Err::<(), AMMError>(AMMError::SameTokenMint) && *final(self) == *old(self),
            r is Ok ==> final(self).amm == (AMM {
                token_a_mint: old(self).token_a_mint,
                token_b_mint: old(self).token_b_mint,
                lp_mint: old(self).lp_mint,
                lp_bump: lp_bump,
                reserve_a: old(self).reserve_a,
                reserve_b: old(self).reserve_b,
                pool_authority: old(self).pool_authority,
                lp_supply: 0,
            }),
            r is Ok ==> final(self).token_a_mint == old(self).token_a_mint
                && final(self).token_b_mint == old(self).token_b_mint
                && final(self).lp_mint == old(self).lp_mint
                && final(self).reserve_a == old(self).reserve_a
                && final(self).reserve_b == old(self).reserve_b
                && final(self).pool_authority == old(self).pool_authority,
    {
        if self.token_a_mint.same_as(&self.token_b_mint) {
            return Err(AMMError::SameTokenMint);
        }
        self.amm = AMM {
            token_a_mint: self.token_a_mint,
            token_b_mint: self.token_b_mint,
            lp_mint: self.lp_mint,
            lp_bump,
            reserve_a: self.reserve_a,
            reserve_b: self.reserve_b,
            pool_authority: self.pool_authority,
            lp_supply: 0,
        };
        Ok(())
    }
}

} // verus!
