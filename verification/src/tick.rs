//! A tick: the liquidity that enters or leaves the range where the price crosses it.
use crate::arith::{wrap, wrap_signed};
use crate::full_math::mod256_sub;
use crate::liquidity_math::{liquidity_sum, try_add_delta};
use crate::types::{I256, MAX_TICK, MIN_TICK, U256};
use vstd::prelude::*;

verus! {

#[derive(Clone, Copy, Debug)]
pub struct Tick {
    pub tick_index: i32,
    pub liquidity_gross: U256,
    pub liquidity_net: I256,
    pub fee_growth_outside_0_x128: U256,
    pub fee_growth_outside_1_x128: U256,
}

/// What a tick holds besides its index, under which a pool keeps it.
pub ghost struct TickView {
    pub gross: int,
    pub net: int,
    pub outside0: int,
    pub outside1: int,
}

impl View for Tick {
    type V = TickView;

    open spec fn view(&self) -> TickView {
        TickView {
            gross: self.liquidity_gross@,
            net: self.liquidity_net@,
            outside0: self.fee_growth_outside_0_x128@,
            outside1: self.fee_growth_outside_1_x128@,
        }
    }
}

/// A tick without liquidity.
pub open spec fn empty_tick() -> TickView {
    TickView { gross: 0, net: 0, outside0: 0, outside1: 0 }
}

/// A tick after a position with this boundary changed by `delta`, and whether the
/// tick went from empty to used or back. A tick that was empty starts with all fee
/// growth outside where it lies at or below the current tick. Fails where the gross
/// liquidity would leave its range or exceed `max`.
pub open spec fn updated_tick(
    t: TickView,
    index: int,
    delta: int,
    current: int,
    growth0: int,
    growth1: int,
    upper: bool,
    max: int,
) -> Option<(TickView, bool)> {
    match liquidity_sum(t.gross, delta) {
        Some(gross) => if gross > max {
            None
        } else {
            let starts = t.gross == 0 && index <= current;
            Some(
                (
                    TickView {
                        gross,
                        net: wrap_signed(
                            if upper {
                                t.net - delta
                            } else {
                                t.net + delta
                            },
                        ),
                        outside0: if starts {
                            growth0
                        } else {
                            t.outside0
                        },
                        outside1: if starts {
                            growth1
                        } else {
                            t.outside1
                        },
                    },
                    (gross == 0) != (t.gross == 0),
                ),
            )
        },
        None => None,
    }
}

/// A tick after the price crossed it: inside and outside change places.
pub open spec fn crossed_tick(t: TickView, growth0: int, growth1: int) -> TickView {
    TickView { outside0: wrap(growth0 - t.outside0), outside1: wrap(growth1 - t.outside1), ..t }
}

impl Tick {
    pub fn new(tick_index: i32) -> (r: Self)
        requires
            MIN_TICK <= tick_index <= MAX_TICK,
        ensures
            r.tick_index == tick_index,
            r@ == empty_tick(),
    {
        Tick {
            tick_index,
            liquidity_gross: U256::ZERO(),
            liquidity_net: I256::ZERO(),
            fee_growth_outside_0_x128: U256::ZERO(),
            fee_growth_outside_1_x128: U256::ZERO(),
        }
    }

    pub fn initialized(&self) -> (r: bool)
        ensures
            r == (self@.gross != 0),
    {
        !self.liquidity_gross.is_zero()
    }

    /// As `update`; `None`, with the tick as it was, where the gross liquidity would
    /// be out of range.
    pub fn try_update(
        &mut self,
        liquidity_delta: I256,
        tick_current: i32,
        fee_growth_global_0_x128: U256,
        fee_growth_global_1_x128: U256,
        upper: bool,
        max_liquidity: U256,
    ) -> (r: Option<bool>)
        ensures
            final(self).tick_index == old(self).tick_index,
            ({
                let u = updated_tick(
                    old(self)@,
                    old(self).tick_index as int,
                    liquidity_delta@,
                    tick_current as int,
                    fee_growth_global_0_x128@,
                    fee_growth_global_1_x128@,
                    upper,
                    max_liquidity@,
                );
                match r {
                    Some(flipped) => u == Some((final(self)@, flipped)),
                    None => u is None && *final(self) == *old(self),
                }
            }),
    {
        let before: U256 = self.liquidity_gross;
        let after: U256 = match try_add_delta(before, liquidity_delta) {
            Some(x) => x,
            None => return None,
        };
        if after > max_liquidity {
            return None;
        }
        let flipped: bool = after.is_zero() != before.is_zero();
        if before.is_zero() && self.tick_index <= tick_current {
            self.fee_growth_outside_0_x128 = fee_growth_global_0_x128;
            self.fee_growth_outside_1_x128 = fee_growth_global_1_x128;
        }
        self.liquidity_gross = after;
        if upper {
            self.liquidity_net = self.liquidity_net - liquidity_delta;
        } else {
            self.liquidity_net = self.liquidity_net + liquidity_delta;
        }
        Some(flipped)
    }

    /// Applies a position change at this boundary and returns whether the tick went
    /// from empty to used or back.
    pub fn update(
        &mut self,
        liquidity_delta: I256,
        tick_current: i32,
        fee_growth_global_0_x128: U256,
        fee_growth_global_1_x128: U256,
        upper: bool,
        max_liquidity: U256,
    ) -> (flipped: bool)
        requires
            updated_tick(
                old(self)@,
                old(self).tick_index as int,
                liquidity_delta@,
                tick_current as int,
                fee_growth_global_0_x128@,
                fee_growth_global_1_x128@,
                upper,
                max_liquidity@,
            ) is Some,
        ensures
            final(self).tick_index == old(self).tick_index,
            updated_tick(
                old(self)@,
                old(self).tick_index as int,
                liquidity_delta@,
                tick_current as int,
                fee_growth_global_0_x128@,
                fee_growth_global_1_x128@,
                upper,
                max_liquidity@,
            ) == Some((final(self)@, flipped)),
    {
        match self.try_update(
            liquidity_delta,
            tick_current,
            fee_growth_global_0_x128,
            fee_growth_global_1_x128,
            upper,
            max_liquidity,
        ) {
            Some(flipped) => flipped,
            None => false,
        }
    }

    /// Crosses the tick and returns its net liquidity.
    pub fn cross(&mut self, fee_growth_global_0_x128: U256, fee_growth_global_1_x128: U256) -> (net:
        I256)
        ensures
            final(self).tick_index == old(self).tick_index,
            final(self)@ == crossed_tick(
                old(self)@,
                fee_growth_global_0_x128@,
                fee_growth_global_1_x128@,
            ),
            net == old(self).liquidity_net,
    {
        self.fee_growth_outside_0_x128 = mod256_sub(
            fee_growth_global_0_x128,
            self.fee_growth_outside_0_x128,
        );
        self.fee_growth_outside_1_x128 = mod256_sub(
            fee_growth_global_1_x128,
            self.fee_growth_outside_1_x128,
        );
        self.liquidity_net
    }
}

/// Crossing a tick and crossing back at the same fee growth changes nothing.
pub proof fn cross_twice(t: TickView, growth0: int, growth1: int)
    requires
        wrap(t.outside0) == t.outside0,
        wrap(t.outside1) == t.outside1,
    ensures
        crossed_tick(crossed_tick(t, growth0, growth1), growth0, growth1) == t,
{
    crate::arith::wrap_add(growth0, growth0 - t.outside0);
    crate::arith::wrap_add(growth1, growth1 - t.outside1);
}

} // verus!
