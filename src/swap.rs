use vstd::prelude::*;

use crate::amm::{pool_wf, AMMError, AMM};

verus! {

/// Units paid out for `quantity` units in, on the constant-product curve:
/// `from_reserve * quantity / (to_reserve + quantity)`, rounded down, where
/// `from_reserve` pays out and `to_reserve` takes the inbound quantity.
pub open spec fn swap_output(from_reserve: u64, to_reserve: u64, quantity: u64) -> Result<
    u64,
    AMMError,
> {
    if quantity == 0 {
        Err(AMMError::InvalidQuantity)
    } else if from_reserve * quantity > u64::MAX || to_reserve + quantity > u64::MAX {
        Err(AMMError::ArithmeticOverflow)
    } else {
        Ok((from_reserve * quantity / (to_reserve + quantity)) as u64)
    }
}

/// The accounts that a swap touches, as plain values.
pub struct Swap {
    pub amm: AMM,
    pub reserve_a_amount: u64,
    pub reserve_b_amount: u64,
}

/// Paying out `from * q / (to + q)` never lowers the product of the reserves, pays out
/// no more than the paying reserve, and leaves a nonempty reserve nonempty.
proof fn lemma_swap_keeps_product(from: int, to: int, q: int)
    requires
        from >= 0,
        to >= 0,
        q > 0,
    ensures
        from * q / (to + q) <= from,
        (to + q) * (from - from * q / (to + q)) >= to * from,
        to > 0 && from > 0 ==> from * q / (to + q) < from,
{
    let d = to + q;
    let out = from * q / d;
    assert(out * d <= from * q && out >= 0) by (nonlinear_arith)
        requires
            d > 0,
            from * q >= 0,
            out == from * q / d,
    ;
    assert(out <= from) by (nonlinear_arith)
        requires
            out * d <= from * q,
            q <= d,
            from >= 0,
            d > 0,
    ;
    assert(d * (from - out) >= to * from) by (nonlinear_arith)
        requires
            out * d <= from * q,
            d == to + q,
    ;
    if to > 0 && from > 0 {
        assert(from * q < from * d) by (nonlinear_arith)
            requires
                q < d,
                from > 0,
        ;
        assert(out < from) by (nonlinear_arith)
            requires
                out * d < from * d,
                d > 0,
        ;
    }
}

impl Swap {
    /// Takes `quantity` units into one reserve and returns the units to pay out of the
    /// other. With `is_a` the A reserve pays out and the B reserve takes the inbound
    /// quantity; otherwise the roles are reversed. On success both reserves move by
    /// those amounts; the supply of shares never changes.
    pub fn swap(&mut self, quantity: u64, is_a: bool) -> (r: Result<u64, AMMError>)
        ensures
            is_a ==> r == swap_output(old(self).reserve_a_amount, old(self).reserve_b_amount, quantity),
            !is_a ==> r == swap_output(old(self).reserve_b_amount, old(self).reserve_a_amount, quantity),
            final(self).amm == old(self).amm,
            r matches Ok(out) ==> (is_a ==> final(self).reserve_a_amount == old(self).reserve_a_amount - out
                && final(self).reserve_b_amount == old(self).reserve_b_amount + quantity),
            r matches Ok(out) ==> (!is_a ==> final(self).reserve_b_amount == old(self).reserve_b_amount - out
                && final(self).reserve_a_amount == old(self).reserve_a_amount + quantity),
            r is Err ==> *final(self) == *old(self),
            final(self).reserve_a_amount * final(self).reserve_b_amount
                >= old(self).reserve_a_amount * old(self).reserve_b_amount,
            pool_wf(old(self).amm.lp_supply, old(self).reserve_a_amount, old(self).reserve_b_amount)
                ==> pool_wf(
                final(self).amm.lp_supply,
                final(self).reserve_a_amount,
                final(self).reserve_b_amount,
            ),
    {
        let ghost old_a = self.reserve_a_amount;
        let ghost old_b = self.reserve_b_amount;
        if !(quantity > 0) {
            return Err(AMMError::InvalidQuantity);
        }
        let (from_reserve, to_reserve) = if is_a {
            (self.reserve_a_amount, self.reserve_b_amount)
        } else {
            (self.reserve_b_amount, self.reserve_a_amount)
        };
        let other_token_quantity = match from_reserve.checked_mul(quantity) {
            Some(p) => match to_reserve.checked_add(quantity) {
                Some(d) => p / d,
                None => return Err(AMMError::ArithmeticOverflow),
            },
            None => return Err(AMMError::ArithmeticOverflow),
        };
        proof {
            lemma_swap_keeps_product(from_reserve as int, to_reserve as int, quantity as int);
        }
        let new_from = from_reserve - other_token_quantity;
        let new_to = to_reserve + quantity;
        if is_a {
            self.reserve_a_amount = new_from;
            self.reserve_b_amount = new_to;
        } else {
            self.reserve_b_amount = new_from;
            self.reserve_a_amount = new_to;
        }
        proof {
            assert(self.reserve_a_amount * self.reserve_b_amount == new_from * new_to) by (
            nonlinear_arith)
                requires
                    (self.reserve_a_amount == new_from && self.reserve_b_amount == new_to) || (
                    self.reserve_b_amount == new_from && self.reserve_a_amount == new_to),
            ;
            assert(old_a * old_b == from_reserve * to_reserve) by (nonlinear_arith)
                requires
                    (old_a == from_reserve && old_b == to_reserve) || (old_b == from_reserve
                        && old_a == to_reserve),
            ;
        }
        Ok(other_token_quantity)
    }
}

} // verus!
