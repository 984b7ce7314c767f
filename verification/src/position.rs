//! A liquidity position and the fees it is owed.
use crate::arith::{p128, wrap};
use crate::full_math::{floor_mul_div, mod256_sub, mul_div};
use crate::liquidity_math::{liquidity_sum, try_add_delta};
use crate::types::{I256, Q128, U256};
use vstd::prelude::*;

verus! {

#[derive(Clone, Copy, Debug)]
pub struct Position {
    pub liquidity: U256,
    pub fee_growth_inside_0_last_x128: U256,
    pub fee_growth_inside_1_last_x128: U256,
    pub tokens_owed_0: U256,
    pub tokens_owed_1: U256,
}

/// A position by its views.
pub ghost struct PositionView {
    pub liquidity: int,
    pub last0: int,
    pub last1: int,
    pub owed0: int,
    pub owed1: int,
}

impl View for Position {
    type V = PositionView;

    open spec fn view(&self) -> PositionView {
        PositionView {
            liquidity: self.liquidity@,
            last0: self.fee_growth_inside_0_last_x128@,
            last1: self.fee_growth_inside_1_last_x128@,
            owed0: self.tokens_owed_0@,
            owed1: self.tokens_owed_1@,
        }
    }
}

/// A position without liquidity.
pub open spec fn empty_position() -> PositionView {
    PositionView { liquidity: 0, last0: 0, last1: 0, owed0: 0, owed1: 0 }
}

/// The fees earned since the last update: growth times liquidity, over 2^128.
pub open spec fn fees_earned(growth: int, last: int, liquidity: int) -> int {
    floor_mul_div(wrap(growth - last), liquidity, p128())
}

/// A position after a liquidity change of `delta` with the fee growth inside its
/// range: the fees earned at the old liquidity are added to what it is owed. Fails
/// where the liquidity would leave its range.
pub open spec fn updated_position(p: PositionView, delta: int, growth0: int, growth1: int) -> Option<
    PositionView,
> {
    let next = if delta == 0 {
        Some(p.liquidity)
    } else {
        liquidity_sum(p.liquidity, delta)
    };
    match next {
        Some(liquidity) => Some(
            PositionView {
                liquidity,
                last0: growth0,
                last1: growth1,
                owed0: wrap(p.owed0 + fees_earned(growth0, p.last0, p.liquidity)),
                owed1: wrap(p.owed1 + fees_earned(growth1, p.last1, p.liquidity)),
            },
        ),
        None => None,
    }
}

impl Position {
    pub fn new() -> (r: Self)
        ensures
            r@ == empty_position(),
    {
        Position {
            liquidity: U256::ZERO(),
            fee_growth_inside_0_last_x128: U256::ZERO(),
            fee_growth_inside_1_last_x128: U256::ZERO(),
            tokens_owed_0: U256::ZERO(),
            tokens_owed_1: U256::ZERO(),
        }
    }

    /// As `update`; false, with the position as it was, where the liquidity would be
    /// out of range.
    pub fn try_update(
        &mut self,
        liquidity_delta: I256,
        fee_growth_inside_0_x128: U256,
        fee_growth_inside_1_x128: U256,
    ) -> (ok: bool)
        ensures
            ({
                let u = updated_position(
                    old(self)@,
                    liquidity_delta@,
                    fee_growth_inside_0_x128@,
                    fee_growth_inside_1_x128@,
                );
                &&& ok ==> u == Some(final(self)@)
                &&& !ok ==> u is None && *final(self) == *old(self)
            }),
    {
        let liquidity_next: U256 = if liquidity_delta.is_zero() {
            self.liquidity
        } else {
            match try_add_delta(self.liquidity, liquidity_delta) {
                Some(x) => x,
                None => return false,
            }
        };
        let earned_0: U256 = mul_div(
            mod256_sub(fee_growth_inside_0_x128, self.fee_growth_inside_0_last_x128),
            self.liquidity,
            Q128(),
        );
        let earned_1: U256 = mul_div(
            mod256_sub(fee_growth_inside_1_x128, self.fee_growth_inside_1_last_x128),
            self.liquidity,
            Q128(),
        );
        self.liquidity = liquidity_next;
        self.fee_growth_inside_0_last_x128 = fee_growth_inside_0_x128;
        self.fee_growth_inside_1_last_x128 = fee_growth_inside_1_x128;
        if !earned_0.is_zero() || !earned_1.is_zero() {
            self.tokens_owed_0 = self.tokens_owed_0 + earned_0;
            self.tokens_owed_1 = self.tokens_owed_1 + earned_1;
        }
        true
    }

    /// Changes the liquidity and credits the fees earned at the old one.
    pub fn update(
        &mut self,
        liquidity_delta: I256,
        fee_growth_inside_0_x128: U256,
        fee_growth_inside_1_x128: U256,
    )
        requires
            updated_position(
                old(self)@,
                liquidity_delta@,
                fee_growth_inside_0_x128@,
                fee_growth_inside_1_x128@,
            ) is Some,
        ensures
            updated_position(
                old(self)@,
                liquidity_delta@,
                fee_growth_inside_0_x128@,
                fee_growth_inside_1_x128@,
            ) == Some(final(self)@),
    {
        let _ = self.try_update(liquidity_delta, fee_growth_inside_0_x128, fee_growth_inside_1_x128);
    }

    /// Sets what the position is owed.
    pub fn update_burn(&mut self, new_tokens_owed_0: U256, new_tokens_owed_1: U256)
        ensures
            final(self)@ == (PositionView {
                owed0: new_tokens_owed_0@,
                owed1: new_tokens_owed_1@,
                ..old(self)@
            }),
    {
        self.tokens_owed_0 = new_tokens_owed_0;
        self.tokens_owed_1 = new_tokens_owed_1;
    }

    pub fn is_empty(&self) -> (r: bool)
        ensures
            r == (self@.liquidity == 0 && self@.owed0 == 0 && self@.owed1 == 0),
    {
        self.liquidity.is_zero() && self.tokens_owed_0.is_zero() && self.tokens_owed_1.is_zero()
    }
}

} // verus!
