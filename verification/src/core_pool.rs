//! A concentrated-liquidity pool: liquidity changes, fee collection and swaps.
use crate::arith::{p128, signed_sum};
use crate::full_math::mul_div;
use crate::liquidity_math::try_add_delta;
use crate::pool_model::{
    active_liquidity, boundary_ticks, burned, clamp_tick, credit_keeps_valid, credited, fee_ok,
    initialised, initialised_keeps_valid, minted, modified, modified_keeps_valid, phantom_burned,
    phantom_minted, phantom_modified, pool_collected, pool_valid, position_amounts, rapid_burned,
    rapid_minted, rapid_modified, step_target, swap_amounts, swap_end, swap_landed, swap_moved,
    swap_next, swap_over, swap_run, swap_start, swapped, tick_of_unique, ticks_ahead, valid_range,
    without_emptied, PoolView, SwapState,
};
use crate::pool_laws::{booking_keeps, next_tick_ahead, state_ok, step_keeps, ticks_kept};
use crate::position::Position;
use crate::position_manager::{position_at, position_key, PositionManager};
use crate::sqrt_price_math::{opt, try_get_amount0_delta, try_get_amount1_delta};
use crate::swap_laws::swap_step_bounds;
use crate::swap_math::{
    input_between, output_between, step_price, swap_step, try_compute_swap_step, SwapStepResult,
};
use crate::tick::{Tick, TickView};
use crate::tick_manager::{
    growth_between, is_above, is_at_or_below, next_tick, tick_at, TickManager,
};
use crate::tick_math::{
    get_sqrt_ratio_at_tick, get_tick_at_sqrt_ratio, ratio_at, ratio_ends, ratio_mono,
    tick_spacing_to_max_liquidity_per_tick, usable_ticks,
};
use crate::types::{
    i256_bits, max_ratio, max_sqrt_ratio, min_ratio, min_sqrt_ratio, FeeAmount, I256, MAX_TICK,
    MIN_TICK, Q128, U256,
};
use vstd::prelude::*;

verus! {

/// A pool of two tokens.
#[derive(Debug)]
pub struct CorePool {
    pub token0: String,
    pub token1: String,
    pub fee: u32,
    pub tick_spacing: i32,
    pub max_liquidity_per_tick: U256,
    token0_balance: U256,
    token1_balance: U256,
    sqrt_price_x96: U256,
    liquidity: U256,
    tick_current: i32,
    fee_growth_global_0_x128: U256,
    fee_growth_global_1_x128: U256,
    tick_manager: TickManager,
    position_manager: PositionManager,
}

/// What a swap gave: the change of each token in the pool and the price after it.
#[derive(Clone, Debug)]
pub struct SwapResult {
    pub amount0: I256,
    pub amount1: I256,
    pub sqrt_price_x96: U256,
}

impl View for CorePool {
    type V = PoolView;

    closed spec fn view(&self) -> PoolView {
        PoolView {
            token0: self.token0@,
            token1: self.token1@,
            fee: self.fee as int,
            spacing: self.tick_spacing as int,
            max_liquidity: self.max_liquidity_per_tick@,
            balance0: self.token0_balance@,
            balance1: self.token1_balance@,
            price: self.sqrt_price_x96@,
            liquidity: self.liquidity@,
            tick: self.tick_current as int,
            growth0: self.fee_growth_global_0_x128@,
            growth1: self.fee_growth_global_1_x128@,
            ticks: self.tick_manager@,
            positions: self.position_manager@,
        }
    }
}

/// The result of an optional pool operation against its model.
pub open spec fn outcome(r: Option<(I256, I256)>, v: PoolView) -> Option<(PoolView, int, int)> {
    match r {
        Some((a0, a1)) => Some((v, a0@, a1@)),
        None => None,
    }
}

impl Clone for CorePool {
    fn clone(&self) -> (r: Self)
        ensures
            self.wf() ==> r.wf() && r@ == self@,
    {
        CorePool {
            token0: self.token0.clone(),
            token1: self.token1.clone(),
            fee: self.fee,
            tick_spacing: self.tick_spacing,
            max_liquidity_per_tick: self.max_liquidity_per_tick,
            token0_balance: self.token0_balance,
            token1_balance: self.token1_balance,
            sqrt_price_x96: self.sqrt_price_x96,
            liquidity: self.liquidity,
            tick_current: self.tick_current,
            fee_growth_global_0_x128: self.fee_growth_global_0_x128,
            fee_growth_global_1_x128: self.fee_growth_global_1_x128,
            tick_manager: self.tick_manager.clone(),
            position_manager: self.position_manager.clone(),
        }
    }
}

/// The ticks at both ends of a range after a change, before it takes effect.
struct Boundaries {
    lower: Tick,
    upper: Tick,
    flipped_lower: bool,
    flipped_upper: bool,
}

impl CorePool {
    /// The ticks are in order and no position occurs twice.
    pub closed spec fn wf(&self) -> bool {
        self.tick_manager.wf() && self.position_manager.wf()
    }

    /// The pool is in order.
    pub open spec fn valid(&self) -> bool {
        self.wf() && pool_valid(self@)
    }

    pub fn new(
        token0: String,
        token1: String,
        fee: u32,
        tick_spacing: i32,
        token0_balance: U256,
        token1_balance: U256,
        sqrt_price_x96: U256,
        liquidity: U256,
        tick_current: i32,
        fee_growth_global_0_x128: U256,
        fee_growth_global_1_x128: U256,
        tick_manager: TickManager,
        position_manager: PositionManager,
    ) -> (r: Self)
        requires
            tick_spacing != 0,
            tick_manager.wf(),
            position_manager.wf(),
        ensures
            r.wf(),
            r@ == (PoolView {
                token0: token0@,
                token1: token1@,
                fee: fee as int,
                spacing: tick_spacing as int,
                max_liquidity: (p128() - 1) / usable_ticks(tick_spacing as int),
                balance0: token0_balance@,
                balance1: token1_balance@,
                price: sqrt_price_x96@,
                liquidity: liquidity@,
                tick: tick_current as int,
                growth0: fee_growth_global_0_x128@,
                growth1: fee_growth_global_1_x128@,
                ticks: tick_manager@,
                positions: position_manager@,
            }),
    {
        let max_liquidity_per_tick: U256 = tick_spacing_to_max_liquidity_per_tick(tick_spacing);
        CorePool {
            token0,
            token1,
            fee,
            tick_spacing,
            max_liquidity_per_tick,
            token0_balance,
            token1_balance,
            sqrt_price_x96,
            liquidity,
            tick_current,
            fee_growth_global_0_x128,
            fee_growth_global_1_x128,
            tick_manager,
            position_manager,
        }
    }

    pub fn token0_balance(&self) -> (r: U256)
        ensures
            r@ == self@.balance0,
    {
        self.token0_balance
    }

    pub fn token1_balance(&self) -> (r: U256)
        ensures
            r@ == self@.balance1,
    {
        self.token1_balance
    }

    pub fn sqrt_price_x96(&self) -> (r: U256)
        ensures
            r@ == self@.price,
    {
        self.sqrt_price_x96
    }

    pub fn liquidity(&self) -> (r: U256)
        ensures
            r@ == self@.liquidity,
    {
        self.liquidity
    }

    pub fn tick_current(&self) -> (r: i32)
        ensures
            r == self@.tick,
    {
        self.tick_current
    }

    pub fn fee_growth_global_0_x128(&self) -> (r: U256)
        ensures
            r@ == self@.growth0,
    {
        self.fee_growth_global_0_x128
    }

    pub fn fee_growth_global_1_x128(&self) -> (r: U256)
        ensures
            r@ == self@.growth1,
    {
        self.fee_growth_global_1_x128
    }

    pub fn tick_manager(&self) -> (r: &TickManager)
        ensures
            r@ == self@.ticks,
            self.wf() ==> r.wf(),
    {
        &self.tick_manager
    }

    pub fn tick_manager_mut(&mut self) -> (r: &mut TickManager)
        ensures
            r@ == old(self)@.ticks,
            old(self).wf() ==> r.wf(),
            final(self)@ == (PoolView { ticks: final(r)@, ..old(self)@ }),
            old(self).wf() && final(r).wf() ==> final(self).wf(),
    {
        &mut self.tick_manager
    }

    pub fn position_manager(&self) -> (r: &PositionManager)
        ensures
            r@ == self@.positions,
            self.wf() ==> r.wf(),
    {
        &self.position_manager
    }

    pub fn position_manager_mut(&mut self) -> (r: &mut PositionManager)
        ensures
            r@ == old(self)@.positions,
            old(self).wf() ==> r.wf(),
            final(self)@ == (PoolView { positions: final(r)@, ..old(self)@ }),
            old(self).wf() && final(r).wf() ==> final(self).wf(),
    {
        &mut self.position_manager
    }

    /// As `initialize`; false, with the pool as it was, where it has a price or the
    /// price is out of range.
    pub fn try_initialize(&mut self, sqrt_price_x96: U256) -> (ok: bool)
        requires
            old(self).wf(),
        ensures
            final(self).wf(),
            ok ==> initialised(old(self)@, sqrt_price_x96@) == Some(final(self)@),
            !ok ==> initialised(old(self)@, sqrt_price_x96@) is None && *final(self) == *old(self),
            pool_valid(old(self)@) ==> pool_valid(final(self)@),
    {
        if !self.sqrt_price_x96.is_zero() || sqrt_price_x96 < min_sqrt_ratio() || sqrt_price_x96
            >= max_sqrt_ratio() {
            return false;
        }
        let tick: i32 = get_tick_at_sqrt_ratio(sqrt_price_x96);
        proof {
            tick_of_unique(sqrt_price_x96@, tick as int);
            if pool_valid(self@) {
                initialised_keeps_valid(self@, sqrt_price_x96@, tick as int);
            }
        }
        self.tick_current = tick;
        self.sqrt_price_x96 = sqrt_price_x96;
        true
    }

    /// Gives the pool its first price.
    pub fn initialize(&mut self, sqrt_price_x96: U256)
        requires
            old(self).wf(),
            initialised(old(self)@, sqrt_price_x96@) is Some,
        ensures
            final(self).wf(),
            initialised(old(self)@, sqrt_price_x96@) == Some(final(self)@),
            pool_valid(old(self)@) ==> pool_valid(final(self)@),
    {
        let _ = self.try_initialize(sqrt_price_x96);
    }

    fn check_ticks(&self, tick_lower: i32, tick_upper: i32) -> (ok: bool)
        ensures
            ok == valid_range(tick_lower as int, tick_upper as int),
    {
        tick_lower < tick_upper && tick_lower >= MIN_TICK && tick_upper <= MAX_TICK
    }

    fn compute_position_amounts(
        &self,
        tick_lower: i32,
        tick_upper: i32,
        liquidity_delta: I256,
    ) -> (r: Option<(I256, I256)>)
        requires
            valid_range(tick_lower as int, tick_upper as int),
        ensures
            position_amounts(self@, tick_lower as int, tick_upper as int, liquidity_delta@) == (
            match r {
                Some((a0, a1)) => Some((a0@, a1@)),
                None => None,
            }),
    {
        if liquidity_delta.is_zero() {
            return Some((I256::ZERO(), I256::ZERO()));
        }
        let lower: U256 = get_sqrt_ratio_at_tick(tick_lower);
        let upper: U256 = get_sqrt_ratio_at_tick(tick_upper);
        if self.tick_current < tick_lower {
            match try_get_amount0_delta(lower, upper, liquidity_delta) {
                Some(a0) => Some((a0, I256::ZERO())),
                None => None,
            }
        } else if self.tick_current < tick_upper {
            let a0: I256 = match try_get_amount0_delta(self.sqrt_price_x96, upper, liquidity_delta) {
                Some(x) => x,
                None => return None,
            };
            let a1: I256 = match try_get_amount1_delta(lower, self.sqrt_price_x96, liquidity_delta) {
                Some(x) => x,
                None => return None,
            };
            Some((a0, a1))
        } else {
            match try_get_amount1_delta(lower, upper, liquidity_delta) {
                Some(a1) => Some((I256::ZERO(), a1)),
                None => None,
            }
        }
    }

    /// The ticks at both ends of a range after a change.
    fn changed_boundaries(&self, tick_lower: i32, tick_upper: i32, liquidity_delta: I256) -> (r:
        Option<Boundaries>)
        requires
            self.wf(),
            valid_range(tick_lower as int, tick_upper as int),
        ensures
            ({
                let (l, u) = (tick_lower as int, tick_upper as int);
                let b = boundary_ticks(self@, l, u, liquidity_delta@);
                match r {
                    Some(x) => {
                        &&& x.lower.tick_index == l && x.upper.tick_index == u
                        &&& b is Some
                        &&& liquidity_delta@ != 0 ==> b == Some(
                            (
                                self@.ticks.insert(l, x.lower@).insert(u, x.upper@),
                                x.flipped_lower,
                                x.flipped_upper,
                            ),
                        )
                        &&& liquidity_delta@ == 0 ==> x.lower@ == tick_at(self@.ticks, l)
                            && x.upper@ == tick_at(self@.ticks, u)
                    },
                    None => b is None,
                }
            }),
    {
        let mut lower: Tick = self.tick_manager.get_tick_readonly(tick_lower);
        let mut upper: Tick = self.tick_manager.get_tick_readonly(tick_upper);
        if liquidity_delta.is_zero() {
            return Some(Boundaries { lower, upper, flipped_lower: false, flipped_upper: false });
        }
        let flipped_lower: bool = match lower.try_update(
            liquidity_delta,
            self.tick_current,
            self.fee_growth_global_0_x128,
            self.fee_growth_global_1_x128,
            false,
            self.max_liquidity_per_tick,
        ) {
            Some(x) => x,
            None => return None,
        };
        let flipped_upper: bool = match upper.try_update(
            liquidity_delta,
            self.tick_current,
            self.fee_growth_global_0_x128,
            self.fee_growth_global_1_x128,
            true,
            self.max_liquidity_per_tick,
        ) {
            Some(x) => x,
            None => return None,
        };
        Some(Boundaries { lower, upper, flipped_lower, flipped_upper })
    }

    /// Puts changed boundary ticks in place, or takes them out where a removal emptied
    /// them.
    fn store_boundaries(&mut self, b: &Boundaries, liquidity_delta: I256)
        requires
            old(self).wf(),
            b.lower.tick_index < b.upper.tick_index,
            liquidity_delta@ != 0,
        ensures
            final(self).wf(),
            final(self)@ == (PoolView {
                ticks: without_emptied(
                    old(self)@.ticks.insert(b.lower.tick_index as int, b.lower@).insert(
                        b.upper.tick_index as int,
                        b.upper@,
                    ),
                    b.lower.tick_index as int,
                    b.upper.tick_index as int,
                    liquidity_delta@,
                    b.flipped_lower,
                    b.flipped_upper,
                ),
                ..old(self)@
            }),
    {
        let removing: bool = liquidity_delta.is_negative();
        if removing && b.flipped_lower {
            self.tick_manager.clear(b.lower.tick_index);
        } else {
            self.tick_manager.set(b.lower);
        }
        if removing && b.flipped_upper {
            self.tick_manager.clear(b.upper.tick_index);
        } else {
            self.tick_manager.set(b.upper);
        }
        proof {
            let (l, u) = (b.lower.tick_index as int, b.upper.tick_index as int);
            assert(self@.ticks =~= without_emptied(
                old(self)@.ticks.insert(l, b.lower@).insert(u, b.upper@),
                l,
                u,
                liquidity_delta@,
                b.flipped_lower,
                b.flipped_upper,
            ));
        }
    }

    /// The active liquidity after a change in a range.
    fn changed_liquidity(&self, tick_lower: i32, tick_upper: i32, liquidity_delta: I256) -> (r:
        Option<U256>)
        ensures
            opt(r) == active_liquidity(
                self@,
                tick_lower as int,
                tick_upper as int,
                liquidity_delta@,
            ),
    {
        if !liquidity_delta.is_zero() && self.tick_current >= tick_lower && self.tick_current
            < tick_upper {
            try_add_delta(self.liquidity, liquidity_delta)
        } else {
            Some(self.liquidity)
        }
    }

    /// Changes the liquidity of a position; `None`, with the pool as it was, where that
    /// fails.
    fn modify_position(
        &mut self,
        owner: &str,
        tick_lower: i32,
        tick_upper: i32,
        liquidity_delta: I256,
    ) -> (r: Option<(I256, I256)>)
        requires
            old(self).wf(),
        ensures
            final(self).wf(),
            modified(
                old(self)@,
                owner@,
                tick_lower as int,
                tick_upper as int,
                liquidity_delta@,
            ) == outcome(r, final(self)@),
            r is None ==> *final(self) == *old(self),
            pool_valid(old(self)@) ==> pool_valid(final(self)@),
    {
        proof {
            if pool_valid(self@) {
                modified_keeps_valid(
                    self@,
                    owner@,
                    tick_lower as int,
                    tick_upper as int,
                    liquidity_delta@,
                );
            }
        }
        if !self.check_ticks(tick_lower, tick_upper) {
            return None;
        }
        let mut position: Position = self.position_manager.get_position_readonly(
            owner,
            tick_lower,
            tick_upper,
        );
        if liquidity_delta.is_negative() && position.liquidity < liquidity_delta.abs() {
            return None;
        }
        let boundaries: Boundaries = match self.changed_boundaries(
            tick_lower,
            tick_upper,
            liquidity_delta,
        ) {
            Some(b) => b,
            None => return None,
        };
        let (inside0, inside1) = growth_between(
            &boundaries.lower,
            &boundaries.upper,
            self.tick_current,
            self.fee_growth_global_0_x128,
            self.fee_growth_global_1_x128,
        );
        if !position.try_update(liquidity_delta, inside0, inside1) {
            return None;
        }
        let (amount0, amount1) = match self.compute_position_amounts(
            tick_lower,
            tick_upper,
            liquidity_delta,
        ) {
            Some(a) => a,
            None => return None,
        };
        let liquidity: U256 = match self.changed_liquidity(tick_lower, tick_upper, liquidity_delta) {
            Some(x) => x,
            None => return None,
        };
        if !liquidity_delta.is_zero() {
            self.store_boundaries(&boundaries, liquidity_delta);
        }
        self.position_manager.set(
            PositionManager::get_key(owner, tick_lower, tick_upper),
            position,
        );
        self.liquidity = liquidity;
        Some((amount0, amount1))
    }

    /// As `modify_position`, but only the position changes.
    fn phantom_modify_position(
        &mut self,
        owner: &str,
        tick_lower: i32,
        tick_upper: i32,
        liquidity_delta: I256,
    ) -> (r: Option<(I256, I256)>)
        requires
            old(self).wf(),
        ensures
            final(self).wf(),
            phantom_modified(
                old(self)@,
                owner@,
                tick_lower as int,
                tick_upper as int,
                liquidity_delta@,
            ) == outcome(r, final(self)@),
            r is None ==> *final(self) == *old(self),
            pool_valid(old(self)@) ==> pool_valid(final(self)@),
    {
        proof {
            if pool_valid(self@) {
                modified_keeps_valid(
                    self@,
                    owner@,
                    tick_lower as int,
                    tick_upper as int,
                    liquidity_delta@,
                );
            }
        }
        if !self.check_ticks(tick_lower, tick_upper) {
            return None;
        }
        let mut position: Position = self.position_manager.get_position_readonly(
            owner,
            tick_lower,
            tick_upper,
        );
        if liquidity_delta.is_negative() && position.liquidity < liquidity_delta.abs() {
            return None;
        }
        let (inside0, inside1) = self.tick_manager.get_fee_growth_inside_readonly(
            tick_lower,
            tick_upper,
            self.tick_current,
            self.fee_growth_global_0_x128,
            self.fee_growth_global_1_x128,
        );
        if !position.try_update(liquidity_delta, inside0, inside1) {
            return None;
        }
        let (amount0, amount1) = match self.compute_position_amounts(
            tick_lower,
            tick_upper,
            liquidity_delta,
        ) {
            Some(a) => a,
            None => return None,
        };
        self.position_manager.set(
            PositionManager::get_key(owner, tick_lower, tick_upper),
            position,
        );
        Some((amount0, amount1))
    }

    /// As `modify_position`, but no position changes.
    fn rapid_modify_position(&mut self, tick_lower: i32, tick_upper: i32, liquidity_delta: I256) -> (r:
        Option<(I256, I256)>)
        requires
            old(self).wf(),
        ensures
            final(self).wf(),
            rapid_modified(
                old(self)@,
                tick_lower as int,
                tick_upper as int,
                liquidity_delta@,
            ) == outcome(r, final(self)@),
            r is None ==> *final(self) == *old(self),
            pool_valid(old(self)@) ==> pool_valid(final(self)@),
    {
        proof {
            if pool_valid(self@) {
                modified_keeps_valid(
                    self@,
                    seq![],
                    tick_lower as int,
                    tick_upper as int,
                    liquidity_delta@,
                );
            }
        }
        if !self.check_ticks(tick_lower, tick_upper) {
            return None;
        }
        let boundaries: Boundaries = match self.changed_boundaries(
            tick_lower,
            tick_upper,
            liquidity_delta,
        ) {
            Some(b) => b,
            None => return None,
        };
        let (amount0, amount1) = match self.compute_position_amounts(
            tick_lower,
            tick_upper,
            liquidity_delta,
        ) {
            Some(a) => a,
            None => return None,
        };
        let liquidity: U256 = match self.changed_liquidity(tick_lower, tick_upper, liquidity_delta) {
            Some(x) => x,
            None => return None,
        };
        if !liquidity_delta.is_zero() {
            self.store_boundaries(&boundaries, liquidity_delta);
        }
        self.liquidity = liquidity;
        Some((amount0, amount1))
    }

    /// Credits what a removal gave to the position, and returns it.
    fn credit(&mut self, owner: &str, tick_lower: i32, tick_upper: i32, amount0: I256, amount1: I256) -> (r:
        (I256, I256))
        requires
            old(self).wf(),
        ensures
            final(self).wf(),
            credited(
                Some((old(self)@, amount0@, amount1@)),
                owner@,
                tick_lower as int,
                tick_upper as int,
            ) == outcome(Some(r), final(self)@),
            pool_valid(old(self)@) ==> pool_valid(final(self)@),
    {
        proof {
            if pool_valid(self@) {
                credit_keeps_valid(
                    self@,
                    owner@,
                    tick_lower as int,
                    tick_upper as int,
                    amount0@,
                    amount1@,
                );
            }
        }
        let a0: I256 = amount0.negate();
        let a1: I256 = amount1.negate();
        proof {
            i256_bits(a0);
            i256_bits(a1);
        }
        if a0.is_positive() || a1.is_positive() {
            let mut position: Position = self.position_manager.get_position_readonly(
                owner,
                tick_lower,
                tick_upper,
            );
            position.update_burn(position.tokens_owed_0 + a0.0, position.tokens_owed_1 + a1.0);
            self.position_manager.set(
                PositionManager::get_key(owner, tick_lower, tick_upper),
                position,
            );
        }
        (a0, a1)
    }

    /// As `mint`; `None`, with the pool as it was, where it fails.
    pub fn try_mint(
        &mut self,
        recipient: &str,
        tick_lower: i32,
        tick_upper: i32,
        amount: I256,
    ) -> (r: Option<(I256, I256)>)
        requires
            old(self).wf(),
        ensures
            final(self).wf(),
            minted(
                old(self)@,
                recipient@,
                tick_lower as int,
                tick_upper as int,
                amount@,
            ) == outcome(r, final(self)@),
            r is None ==> *final(self) == *old(self),
            pool_valid(old(self)@) ==> pool_valid(final(self)@),
    {
        if !amount.is_positive() {
            return None;
        }
        self.modify_position(recipient, tick_lower, tick_upper, amount)
    }

    /// Adds liquidity to a position and returns what it takes of each token.
    pub fn mint(
        &mut self,
        recipient: &str,
        tick_lower: i32,
        tick_upper: i32,
        amount: I256,
    ) -> (r: (I256, I256))
        requires
            old(self).wf(),
            minted(old(self)@, recipient@, tick_lower as int, tick_upper as int, amount@) is Some,
        ensures
            final(self).wf(),
            minted(
                old(self)@,
                recipient@,
                tick_lower as int,
                tick_upper as int,
                amount@,
            ) == Some((final(self)@, r.0@, r.1@)),
            pool_valid(old(self)@) ==> pool_valid(final(self)@),
    {
        match self.try_mint(recipient, tick_lower, tick_upper, amount) {
            Some(r) => r,
            None => (I256::ZERO(), I256::ZERO()),
        }
    }

    /// As `phantom_mint`; `None`, with the pool as it was, where it fails.
    pub fn try_phantom_mint(
        &mut self,
        recipient: &str,
        tick_lower: i32,
        tick_upper: i32,
        amount: I256,
    ) -> (r: Option<(I256, I256)>)
        requires
            old(self).wf(),
        ensures
            final(self).wf(),
            phantom_minted(
                old(self)@,
                recipient@,
                tick_lower as int,
                tick_upper as int,
                amount@,
            ) == outcome(r, final(self)@),
            r is None ==> *final(self) == *old(self),
            pool_valid(old(self)@) ==> pool_valid(final(self)@),
    {
        if !amount.is_positive() {
            return None;
        }
        self.phantom_modify_position(recipient, tick_lower, tick_upper, amount)
    }

    /// As `mint`, but only the position changes.
    pub fn phantom_mint(
        &mut self,
        recipient: &str,
        tick_lower: i32,
        tick_upper: i32,
        amount: I256,
    ) -> (r: (I256, I256))
        requires
            old(self).wf(),
            phantom_minted(old(self)@, recipient@, tick_lower as int, tick_upper as int, amount@) is Some,
        ensures
            final(self).wf(),
            phantom_minted(
                old(self)@,
                recipient@,
                tick_lower as int,
                tick_upper as int,
                amount@,
            ) == Some((final(self)@, r.0@, r.1@)),
            pool_valid(old(self)@) ==> pool_valid(final(self)@),
    {
        match self.try_phantom_mint(recipient, tick_lower, tick_upper, amount) {
            Some(r) => r,
            None => (I256::ZERO(), I256::ZERO()),
        }
    }

    /// As `rapid_mint`; `None`, with the pool as it was, where it fails.
    pub fn try_rapid_mint(
        &mut self,
        tick_lower: i32,
        tick_upper: i32,
        amount: I256,
    ) -> (r: Option<(I256, I256)>)
        requires
            old(self).wf(),
        ensures
            final(self).wf(),
            rapid_minted(
                old(self)@,
                tick_lower as int,
                tick_upper as int,
                amount@,
            ) == outcome(r, final(self)@),
            r is None ==> *final(self) == *old(self),
            pool_valid(old(self)@) ==> pool_valid(final(self)@),
    {
        if !amount.is_positive() {
            return None;
        }
        self.rapid_modify_position(tick_lower, tick_upper, amount)
    }

    /// As `mint`, but no position changes.
    pub fn rapid_mint(
        &mut self,
        tick_lower: i32,
        tick_upper: i32,
        amount: I256,
    ) -> (r: (I256, I256))
        requires
            old(self).wf(),
            rapid_minted(old(self)@, tick_lower as int, tick_upper as int, amount@) is Some,
        ensures
            final(self).wf(),
            rapid_minted(
                old(self)@,
                tick_lower as int,
                tick_upper as int,
                amount@,
            ) == Some((final(self)@, r.0@, r.1@)),
            pool_valid(old(self)@) ==> pool_valid(final(self)@),
    {
        match self.try_rapid_mint(tick_lower, tick_upper, amount) {
            Some(r) => r,
            None => (I256::ZERO(), I256::ZERO()),
        }
    }

    /// As `burn`; `None`, with the pool as it was, where it fails.
    pub fn try_burn(
        &mut self,
        owner: &str,
        tick_lower: i32,
        tick_upper: i32,
        amount: I256,
    ) -> (r: Option<(I256, I256)>)
        requires
            old(self).wf(),
        ensures
            final(self).wf(),
            burned(
                old(self)@,
                owner@,
                tick_lower as int,
                tick_upper as int,
                amount@,
            ) == outcome(r, final(self)@),
            r is None ==> *final(self) == *old(self),
            pool_valid(old(self)@) ==> pool_valid(final(self)@),
    {
        let neg_amount: I256 = amount.negate();
        match self.modify_position(owner, tick_lower, tick_upper, neg_amount) {
            Some((a0, a1)) => Some(self.credit(owner, tick_lower, tick_upper, a0, a1)),
            None => None,
        }
    }

    /// Removes liquidity from a position, credits what it gives of each token to the
    /// position and returns it.
    pub fn burn(
        &mut self,
        owner: &str,
        tick_lower: i32,
        tick_upper: i32,
        amount: I256,
    ) -> (r: (I256, I256))
        requires
            old(self).wf(),
            burned(old(self)@, owner@, tick_lower as int, tick_upper as int, amount@) is Some,
        ensures
            final(self).wf(),
            burned(
                old(self)@,
                owner@,
                tick_lower as int,
                tick_upper as int,
                amount@,
            ) == Some((final(self)@, r.0@, r.1@)),
            pool_valid(old(self)@) ==> pool_valid(final(self)@),
    {
        match self.try_burn(owner, tick_lower, tick_upper, amount) {
            Some(r) => r,
            None => (I256::ZERO(), I256::ZERO()),
        }
    }

    /// As `phantom_burn`; `None`, with the pool as it was, where it fails.
    pub fn try_phantom_burn(
        &mut self,
        owner: &str,
        tick_lower: i32,
        tick_upper: i32,
        amount: I256,
    ) -> (r: Option<(I256, I256)>)
        requires
            old(self).wf(),
        ensures
            final(self).wf(),
            phantom_burned(
                old(self)@,
                owner@,
                tick_lower as int,
                tick_upper as int,
                amount@,
            ) == outcome(r, final(self)@),
            r is None ==> *final(self) == *old(self),
            pool_valid(old(self)@) ==> pool_valid(final(self)@),
    {
        let neg_amount: I256 = amount.negate();
        match self.phantom_modify_position(owner, tick_lower, tick_upper, neg_amount) {
            Some((a0, a1)) => Some(self.credit(owner, tick_lower, tick_upper, a0, a1)),
            None => None,
        }
    }

    /// As `burn`, but only the position changes.
    pub fn phantom_burn(
        &mut self,
        owner: &str,
        tick_lower: i32,
        tick_upper: i32,
        amount: I256,
    ) -> (r: (I256, I256))
        requires
            old(self).wf(),
            phantom_burned(old(self)@, owner@, tick_lower as int, tick_upper as int, amount@) is Some,
        ensures
            final(self).wf(),
            phantom_burned(
                old(self)@,
                owner@,
                tick_lower as int,
                tick_upper as int,
                amount@,
            ) == Some((final(self)@, r.0@, r.1@)),
            pool_valid(old(self)@) ==> pool_valid(final(self)@),
    {
        match self.try_phantom_burn(owner, tick_lower, tick_upper, amount) {
            Some(r) => r,
            None => (I256::ZERO(), I256::ZERO()),
        }
    }

    /// As `rapid_burn`; `None`, with the pool as it was, where it fails.
    pub fn try_rapid_burn(
        &mut self,
        tick_lower: i32,
        tick_upper: i32,
        amount: I256,
    ) -> (r: Option<(I256, I256)>)
        requires
            old(self).wf(),
        ensures
            final(self).wf(),
            rapid_burned(
                old(self)@,
                tick_lower as int,
                tick_upper as int,
                amount@,
            ) == outcome(r, final(self)@),
            r is None ==> *final(self) == *old(self),
            pool_valid(old(self)@) ==> pool_valid(final(self)@),
    {
        let neg_amount: I256 = amount.negate();
        match self.rapid_modify_position(tick_lower, tick_upper, neg_amount) {
            Some((a0, a1)) => Some((a0.negate(), a1.negate())),
            None => None,
        }
    }

    /// As `burn`, but no position changes.
    pub fn rapid_burn(
        &mut self,
        tick_lower: i32,
        tick_upper: i32,
        amount: I256,
    ) -> (r: (I256, I256))
        requires
            old(self).wf(),
            rapid_burned(old(self)@, tick_lower as int, tick_upper as int, amount@) is Some,
        ensures
            final(self).wf(),
            rapid_burned(
                old(self)@,
                tick_lower as int,
                tick_upper as int,
                amount@,
            ) == Some((final(self)@, r.0@, r.1@)),
            pool_valid(old(self)@) ==> pool_valid(final(self)@),
    {
        match self.try_rapid_burn(tick_lower, tick_upper, amount) {
            Some(r) => r,
            None => (I256::ZERO(), I256::ZERO()),
        }
    }

    /// As `collect`; `None`, with the pool as it was, for a bad range.
    pub fn try_collect(
        &mut self,
        recipient: &str,
        tick_lower: i32,
        tick_upper: i32,
        amount0_requested: U256,
        amount1_requested: U256,
    ) -> (r: Option<(U256, U256)>)
        requires
            old(self).wf(),
        ensures
            final(self).wf(),
            pool_collected(
                old(self)@,
                recipient@,
                tick_lower as int,
                tick_upper as int,
                amount0_requested@,
                amount1_requested@,
            ) == (match r {
                Some((a0, a1)) => Some((final(self)@, a0@, a1@)),
                None => None,
            }),
            r is None ==> *final(self) == *old(self),
            pool_valid(old(self)@) ==> pool_valid(final(self)@),
    {
        proof {
            if pool_valid(self@) {
                credit_keeps_valid(
                    self@,
                    recipient@,
                    tick_lower as int,
                    tick_upper as int,
                    amount0_requested@,
                    amount1_requested@,
                );
            }
        }
        if !self.check_ticks(tick_lower, tick_upper) {
            return None;
        }
        Some(
            self.position_manager.collect_position(
                recipient,
                tick_lower,
                tick_upper,
                amount0_requested,
                amount1_requested,
            ),
        )
    }

    /// Pays out what a position is owed, up to what is requested.
    pub fn collect(
        &mut self,
        recipient: &str,
        tick_lower: i32,
        tick_upper: i32,
        amount0_requested: U256,
        amount1_requested: U256,
    ) -> (r: (U256, U256))
        requires
            old(self).wf(),
            valid_range(tick_lower as int, tick_upper as int),
        ensures
            final(self).wf(),
            pool_collected(
                old(self)@,
                recipient@,
                tick_lower as int,
                tick_upper as int,
                amount0_requested@,
                amount1_requested@,
            ) == Some((final(self)@, r.0@, r.1@)),
            pool_valid(old(self)@) ==> pool_valid(final(self)@),
    {
        match self.try_collect(
            recipient,
            tick_lower,
            tick_upper,
            amount0_requested,
            amount1_requested,
        ) {
            Some(r) => r,
            None => (U256::ZERO(), U256::ZERO()),
        }
    }

    /// The tick at `tick`, empty where there is none.
    pub fn get_tick(&self, tick: i32) -> (r: Tick)
        requires
            self.wf(),
            MIN_TICK <= tick <= MAX_TICK,
        ensures
            r.tick_index == tick,
            r@ == tick_at(self@.ticks, tick as int),
    {
        self.tick_manager.get_tick_readonly(tick)
    }

    /// The position of `owner` in a range, empty where there is none.
    pub fn get_position(&self, owner: &str, tick_lower: i32, tick_upper: i32) -> (r: Position)
        requires
            self.wf(),
        ensures
            r@ == position_at(
                self@.positions,
                position_key(owner@, tick_lower as int, tick_upper as int),
            ),
    {
        self.position_manager.get_position_readonly(owner, tick_lower, tick_upper)
    }
}

/// Where a swap arrived, with the ticks it crossed, before it takes effect.
struct SwapOutcome {
    remaining: I256,
    calculated: I256,
    price: U256,
    tick: i32,
    liquidity: U256,
    growth: U256,
    crossed: Vec<Tick>,
}

/// `m` with the ticks in `c` put in, one after the other.
spec fn with_ticks(m: Map<int, TickView>, c: Seq<Tick>) -> Map<int, TickView>
    decreases c.len(),
{
    if c.len() == 0 {
        m
    } else {
        with_ticks(m, c.drop_last()).insert(c.last().tick_index as int, c.last()@)
    }
}

/// Where a swap arrived, by its views.
spec fn outcome_state(v: PoolView, o: SwapOutcome) -> SwapState {
    SwapState {
        remaining: o.remaining@,
        calculated: o.calculated@,
        price: o.price@,
        tick: o.tick as int,
        liquidity: o.liquidity@,
        growth: o.growth@,
        ticks: with_ticks(v.ticks, o.crossed@),
    }
}

/// The next tick depends only on which ticks there are.
proof fn next_tick_same(m: Map<int, TickView>, n: Map<int, TickView>, tick: int, spacing: int, lte: bool)
    requires
        m.dom() == n.dom(),
    ensures
        next_tick(m, tick, spacing, lte) == next_tick(n, tick, spacing, lte),
{
    if lte {
        assert forall|k: int| is_at_or_below(m, tick, k) == is_at_or_below(n, tick, k) by {}
        if exists|k: int| is_at_or_below(m, tick, k) {
            let a = choose|k: int| is_at_or_below(m, tick, k);
            let b = choose|k: int| is_at_or_below(n, tick, k);
            assert(is_at_or_below(n, tick, a));
            assert(is_at_or_below(n, tick, b));
            assert(a == b);
        }
    } else {
        assert forall|k: int| is_above(m, tick, k) == is_above(n, tick, k) by {}
        if exists|k: int| is_above(m, tick, k) {
            let a = choose|k: int| is_above(m, tick, k);
            let b = choose|k: int| is_above(n, tick, k);
            assert(is_above(n, tick, a));
            assert(is_above(n, tick, b));
            assert(a == b);
        }
    }
}

/// No step leads away from a zero price.
proof fn no_step_from_zero(target: int, l: int, remaining: int, fee: int)
    requires
        target > 0,
    ensures
        swap_step(0, target, l, remaining, fee) is None,
{
    reveal(swap_step);
    reveal(step_price);
    reveal(input_between);
    reveal(output_between);
}

/// Books the amounts of a step.
fn book(o: &mut SwapOutcome, step: &SwapStepResult, exact_in: bool)
    ensures
        final(o).crossed == old(o).crossed,
        forall|v: PoolView|
            outcome_state(v, *final(o)) == #[trigger] swap_moved(
                outcome_state(v, *old(o)),
                step@,
                exact_in,
            ),
{
    proof {
        reveal(swap_moved);
        signed_sum(o.remaining@, step@.amount_in + step@.fee);
        signed_sum(o.calculated@, step@.amount_in + step@.fee);
        signed_sum(o.remaining@, step@.amount_out);
        signed_sum(o.calculated@, step@.amount_out);
    }
    o.price = step.sqrt_ratio_next_x96;
    let taken: U256 = step.amount_in + step.fee_amount;
    if exact_in {
        o.remaining = o.remaining - I256(taken);
        o.calculated = o.calculated - I256(step.amount_out);
    } else {
        o.remaining = o.remaining + I256(step.amount_out);
        o.calculated = o.calculated + I256(taken);
    }
    if !o.liquidity.is_zero() {
        o.growth = o.growth + mul_div(step.fee_amount, Q128(), o.liquidity);
    }
}

impl CorePool {
    /// One step of a swap; false where it fails.
    fn advance(
        &self,
        zero_for_one: bool,
        exact_in: bool,
        limit: U256,
        fee: FeeAmount,
        o: &mut SwapOutcome,
    ) -> (ok: bool)
        requires
            self.valid(),
            fee.millionths() == self@.fee,
            state_ok(self@, zero_for_one, exact_in, limit@, outcome_state(self@, *old(o))),
            !swap_over(outcome_state(self@, *old(o)), limit@),
        ensures
            ({
                let s = outcome_state(self@, *old(o));
                let n = swap_next(self@, zero_for_one, exact_in, limit@, s);
                &&& ok ==> n == Some(outcome_state(self@, *final(o)))
                &&& !ok ==> n is None
                &&& ({
                    let (raw, init) = next_tick(s.ticks, s.tick, self@.spacing, zero_for_one);
                    &&& zero_for_one ==> raw <= s.tick
                    &&& !zero_for_one ==> raw > s.tick
                    &&& init ==> self@.ticks.dom().contains(raw)
                })
            }),
    {
        let ghost v = self@;
        let ghost s = outcome_state(v, *o);
        let (next_raw, initialized) = self.tick_manager.get_next_initialized_tick(
            o.tick,
            self.tick_spacing,
            zero_for_one,
        );
        proof {
            reveal(swap_next);
            next_tick_same(s.ticks, v.ticks, s.tick, v.spacing, zero_for_one);
        }
        let tick_next: i32 = if next_raw < MIN_TICK {
            MIN_TICK
        } else if next_raw > MAX_TICK {
            MAX_TICK
        } else {
            next_raw
        };
        let price_next: U256 = get_sqrt_ratio_at_tick(tick_next);
        let target: U256 = if (zero_for_one && price_next < limit) || (!zero_for_one && price_next
            > limit) {
            limit
        } else {
            price_next
        };
        proof {
            next_tick_ahead(v, zero_for_one, exact_in, limit@, s, tick_next as int);
            swap_step_bounds(s.price, target@, s.liquidity, s.remaining, v.fee);
        }
        let step: SwapStepResult = match try_compute_swap_step(
            o.price,
            target,
            o.liquidity,
            o.remaining,
            fee,
        ) {
            Some(x) => x,
            None => return false,
        };
        let price_start: U256 = o.price;
        book(o, &step, exact_in);
        let ghost m = swap_moved(s, step@, exact_in);
        assert(outcome_state(v, *o) =~= m);
        proof {
            booking_keeps(s, step@, exact_in);
            assert(tick_at(s.ticks, tick_next as int) == tick_at(v.ticks, tick_next as int)) by {
                reveal(ticks_kept);
            }
        }
        self.land(zero_for_one, price_start, o, tick_next, price_next, initialized)
    }

    /// Brings the tick of a swap up to date after it moved from `price_start`; false
    /// where crossing fails.
    fn land(
        &self,
        zero_for_one: bool,
        price_start: U256,
        o: &mut SwapOutcome,
        tick_next: i32,
        price_next: U256,
        initialized: bool,
    ) -> (ok: bool)
        requires
            self.wf(),
            MIN_TICK <= tick_next <= MAX_TICK,
            price_next@ == ratio_at(tick_next as int),
            min_ratio() <= old(o).price@ < max_ratio() || old(o).price@ == price_next@ || old(
                o,
            ).price == price_start,
            tick_at(with_ticks(self@.ticks, old(o).crossed@), tick_next as int) == tick_at(
                self@.ticks,
                tick_next as int,
            ),
        ensures
            ({
                let n = swap_landed(
                    self@,
                    zero_for_one,
                    price_start@,
                    outcome_state(self@, *old(o)),
                    tick_next as int,
                    initialized,
                );
                &&& ok ==> n == Some(outcome_state(self@, *final(o)))
                &&& !ok ==> n is None
            }),
    {
        let ghost v = self@;
        proof {
            reveal(swap_landed);
        }
        if o.price == price_next {
            if initialized {
                let growth0: U256 = if zero_for_one {
                    o.growth
                } else {
                    self.fee_growth_global_0_x128
                };
                let growth1: U256 = if zero_for_one {
                    self.fee_growth_global_1_x128
                } else {
                    o.growth
                };
                let mut t: Tick = self.tick_manager.get_tick_readonly(tick_next);
                let net: I256 = t.cross(growth0, growth1);
                let change: I256 = if zero_for_one {
                    net.negate()
                } else {
                    net
                };
                o.liquidity = match try_add_delta(o.liquidity, change) {
                    Some(x) => x,
                    None => return false,
                };
                let ghost c = o.crossed@;
                o.crossed.push(t);
                assert(o.crossed@.drop_last() =~= c);
            }
            o.tick = if zero_for_one {
                tick_next - 1
            } else {
                tick_next
            };
        } else if o.price != price_start {
            o.tick = get_tick_at_sqrt_ratio(o.price);
            proof {
                tick_of_unique(o.price@, o.tick as int);
            }
        }
        true
    }

    /// Carries a swap to its end without changing the pool; `None` where it fails.
    fn run_swap(&self, zero_for_one: bool, amount_specified: I256, sqrt_price_limit_x96: Option<U256>) -> (r:
        Option<SwapOutcome>)
        requires
            self.valid(),
        ensures
            ({
                let end = swap_end(self@, zero_for_one, amount_specified@, opt(sqrt_price_limit_x96));
                match r {
                    Some(o) => {
                        &&& end == Some(outcome_state(self@, o))
                        &&& pool_valid(swapped(self@, zero_for_one, end->0))
                    },
                    None => end is None,
                }
            }),
    {
        proof {
            reveal(swap_end);
        }
        let limit: U256 = match sqrt_price_limit_x96 {
            Some(l) => l,
            None => if zero_for_one {
                min_sqrt_ratio() + U256::ONE()
            } else {
                max_sqrt_ratio() - U256::ONE()
            },
        };
        if zero_for_one {
            if limit <= min_sqrt_ratio() || limit >= self.sqrt_price_x96 {
                return None;
            }
        } else if limit >= max_sqrt_ratio() || limit <= self.sqrt_price_x96 {
            return None;
        }
        let fee: FeeAmount = match FeeAmount::try_from_u32(self.fee) {
            Some(f) => f,
            None => {
                proof {
                    let f = self.fee;
                    assert(FeeAmount::ExtraLow.millionths() != f);
                    assert(FeeAmount::Low.millionths() != f);
                    assert(FeeAmount::Medium.millionths() != f);
                    assert(FeeAmount::High.millionths() != f);
                }
                return None;
            },
        };
        let exact_in: bool = !amount_specified.is_negative();
        let mut o = SwapOutcome {
            remaining: amount_specified,
            calculated: I256::ZERO(),
            price: self.sqrt_price_x96,
            tick: self.tick_current,
            liquidity: self.liquidity,
            growth: if zero_for_one {
                self.fee_growth_global_0_x128
            } else {
                self.fee_growth_global_1_x128
            },
            crossed: Vec::new(),
        };
        let ghost v = self@;
        let ghost start = swap_start(v, zero_for_one, amount_specified@);
        let ghost mut s = start;
        proof {
            i256_bits(amount_specified);
            ratio_ends();
            assert(outcome_state(v, o) =~= start);
        }
        if o.price.is_zero() && !o.remaining.is_zero() {
            proof {
                reveal(swap_next);
                let (raw, init) = next_tick(s.ticks, s.tick, v.spacing, zero_for_one);
                let next = clamp_tick(raw);
                ratio_mono(MIN_TICK as int, next);
                no_step_from_zero(
                    step_target(zero_for_one, ratio_at(next), limit@),
                    s.liquidity,
                    s.remaining,
                    v.fee,
                );
            }
            return None;
        }
        proof {
            if v.price != 0 {
                ratio_mono(MIN_TICK as int, v.tick);
                assert(ticks_kept(v.ticks, s.ticks, zero_for_one, s.tick)) by {
                    reveal(ticks_kept);
                }
            }
        }
        while !o.remaining.is_zero() && o.price != limit
            invariant
                self.valid(),
                v == self@,
                fee_ok(v.fee),
                fee.millionths() == v.fee,
                exact_in == (amount_specified@ >= 0),
                swap_end(v, zero_for_one, amount_specified@, opt(sqrt_price_limit_x96)) == swap_run(
                    v,
                    zero_for_one,
                    exact_in,
                    limit@,
                    start,
                ),
                v.price == 0 ==> o.crossed@.len() == 0,
                s == outcome_state(v, o),
                swap_run(v, zero_for_one, exact_in, limit@, s) == swap_run(
                    v,
                    zero_for_one,
                    exact_in,
                    limit@,
                    start,
                ),
                v.price != 0 ==> state_ok(v, zero_for_one, exact_in, limit@, s),
                v.price == 0 ==> o.remaining@ == 0,
            decreases ticks_ahead(zero_for_one, s) + (if swap_over(s, limit@) { 0nat } else { 1nat }),
        {
            let ghost before = s;
            if !self.advance(zero_for_one, exact_in, limit, fee, &mut o) {
                return None;
            }
            proof {
                s = outcome_state(v, o);
                step_keeps(v, zero_for_one, exact_in, limit@, before, s);
            }
        }
        proof {
            if v.price != 0 {
                assert forall|k: int| #[trigger] s.ticks.dom().contains(k) implies MIN_TICK <= k
                    <= MAX_TICK by {
                    assert(v.ticks.dom().contains(k));
                }
            }
        }
        Some(o)
    }

    /// What a swap would give, without making it; `None` where it fails.
    pub fn try_query_swap(
        &self,
        zero_for_one: bool,
        amount_specified: I256,
        sqrt_price_limit_x96: Option<U256>,
    ) -> (r: Option<SwapResult>)
        requires
            self.valid(),
        ensures
            ({
                let end = swap_end(self@, zero_for_one, amount_specified@, opt(sqrt_price_limit_x96));
                match r {
                    Some(x) => end is Some && x.sqrt_price_x96@ == end->0.price && (
                        x.amount0@,
                        x.amount1@,
                    ) == swap_amounts(zero_for_one, amount_specified@, end->0),
                    None => end is None,
                }
            }),
    {
        match self.run_swap(zero_for_one, amount_specified, sqrt_price_limit_x96) {
            Some(o) => Some(swap_result(zero_for_one, amount_specified, &o)),
            None => None,
        }
    }

    /// What a swap would give, without making it.
    pub fn query_swap(
        &self,
        zero_for_one: bool,
        amount_specified: I256,
        sqrt_price_limit_x96: Option<U256>,
    ) -> (r: SwapResult)
        requires
            self.valid(),
            swap_end(self@, zero_for_one, amount_specified@, opt(sqrt_price_limit_x96)) is Some,
        ensures
            ({
                let end = swap_end(self@, zero_for_one, amount_specified@, opt(sqrt_price_limit_x96))->0;
                &&& r.sqrt_price_x96@ == end.price
                &&& (r.amount0@, r.amount1@) == swap_amounts(zero_for_one, amount_specified@, end)
            }),
    {
        match self.try_query_swap(zero_for_one, amount_specified, sqrt_price_limit_x96) {
            Some(r) => r,
            None => SwapResult {
                amount0: I256::ZERO(),
                amount1: I256::ZERO(),
                sqrt_price_x96: self.sqrt_price_x96,
            },
        }
    }

    /// Makes a swap; `None`, with the pool as it was, where it fails.
    fn handle_swap(
        &mut self,
        zero_for_one: bool,
        amount_specified: I256,
        sqrt_price_limit_x96: Option<U256>,
    ) -> (r: Option<SwapResult>)
        requires
            old(self).valid(),
        ensures
            final(self).valid(),
            ({
                let end = swap_end(
                    old(self)@,
                    zero_for_one,
                    amount_specified@,
                    opt(sqrt_price_limit_x96),
                );
                match r {
                    Some(x) => {
                        &&& end is Some
                        &&& final(self)@ == swapped(old(self)@, zero_for_one, end->0)
                        &&& x.sqrt_price_x96@ == end->0.price
                        &&& (x.amount0@, x.amount1@) == swap_amounts(
                            zero_for_one,
                            amount_specified@,
                            end->0,
                        )
                    },
                    None => end is None && *final(self) == *old(self),
                }
            }),
    {
        let o: SwapOutcome = match self.run_swap(zero_for_one, amount_specified, sqrt_price_limit_x96) {
            Some(o) => o,
            None => return None,
        };
        let ghost v = self@;
        let mut i: usize = 0;
        assert(o.crossed@.take(0) =~= Seq::<Tick>::empty());
        while i < o.crossed.len()
            invariant
                i <= o.crossed@.len(),
                self.wf(),
                v == old(self)@,
                self@ == (PoolView { ticks: with_ticks(v.ticks, o.crossed@.take(i as int)), ..v }),
            decreases o.crossed@.len() - i,
        {
            self.tick_manager.set(o.crossed[i]);
            proof {
                let c = o.crossed@.take(i + 1);
                assert(c.drop_last() =~= o.crossed@.take(i as int));
                assert(c.last() == o.crossed@[i as int]);
            }
            i = i + 1;
        }
        assert(o.crossed@.take(o.crossed@.len() as int) =~= o.crossed@);
        self.sqrt_price_x96 = o.price;
        self.tick_current = o.tick;
        self.liquidity = o.liquidity;
        if zero_for_one {
            self.fee_growth_global_0_x128 = o.growth;
        } else {
            self.fee_growth_global_1_x128 = o.growth;
        }
        Some(swap_result(zero_for_one, amount_specified, &o))
    }

    /// As `swap`; `None`, with the pool as it was, where it fails.
    pub fn try_swap(
        &mut self,
        zero_for_one: bool,
        amount_specified: I256,
        sqrt_price_limit_x96: Option<U256>,
    ) -> (r: Option<(I256, I256)>)
        requires
            old(self).valid(),
        ensures
            final(self).valid(),
            ({
                let end = swap_end(
                    old(self)@,
                    zero_for_one,
                    amount_specified@,
                    opt(sqrt_price_limit_x96),
                );
                match r {
                    Some((a0, a1)) => {
                        &&& end is Some
                        &&& final(self)@ == swapped(old(self)@, zero_for_one, end->0)
                        &&& (a0@, a1@) == swap_amounts(zero_for_one, amount_specified@, end->0)
                    },
                    None => end is None && *final(self) == *old(self),
                }
            }),
    {
        match self.handle_swap(zero_for_one, amount_specified, sqrt_price_limit_x96) {
            Some(r) => Some((r.amount0, r.amount1)),
            None => None,
        }
    }

    /// Swaps an exact input, or for an exact output where the amount is negative, and
    /// returns the change of each token in the pool.
    pub fn swap(
        &mut self,
        zero_for_one: bool,
        amount_specified: I256,
        sqrt_price_limit_x96: Option<U256>,
    ) -> (r: (I256, I256))
        requires
            old(self).valid(),
            swap_end(old(self)@, zero_for_one, amount_specified@, opt(sqrt_price_limit_x96)) is Some,
        ensures
            final(self).valid(),
            ({
                let end = swap_end(
                    old(self)@,
                    zero_for_one,
                    amount_specified@,
                    opt(sqrt_price_limit_x96),
                )->0;
                &&& final(self)@ == swapped(old(self)@, zero_for_one, end)
                &&& (r.0@, r.1@) == swap_amounts(zero_for_one, amount_specified@, end)
            }),
    {
        match self.try_swap(zero_for_one, amount_specified, sqrt_price_limit_x96) {
            Some(r) => r,
            None => (I256::ZERO(), I256::ZERO()),
        }
    }
}

/// The change of each token that a finished swap gives.
fn swap_result(zero_for_one: bool, amount_specified: I256, o: &SwapOutcome) -> (r: SwapResult)
    ensures
        r.sqrt_price_x96 == o.price,
        forall|s: SwapState|
            s.remaining == o.remaining@ && s.calculated == o.calculated@ ==> (
                r.amount0@,
                r.amount1@,
            ) == #[trigger] swap_amounts(zero_for_one, amount_specified@, s),
{
    let used: I256 = amount_specified - o.remaining;
    let exact_in: bool = !amount_specified.is_negative();
    if zero_for_one == exact_in {
        SwapResult { amount0: used, amount1: o.calculated, sqrt_price_x96: o.price }
    } else {
        SwapResult { amount0: o.calculated, amount1: used, sqrt_price_x96: o.price }
    }
}

} // verus!
