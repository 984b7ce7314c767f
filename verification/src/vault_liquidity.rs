//! How a vault places liquidity, takes deposits and gives withdrawals.
use crate::core_pool::CorePool;
use crate::full_math::mul_div;
use crate::pool_model::pool_valid;
use crate::types::{max_u256, min_u256, I256, MAX_TICK, MIN_TICK, U256};
use crate::vault::{as_tick, floor_tick, range_view, wide_max_liquidity, Vault, VaultPosition};
use crate::vault_math::{
    amounts_for_liquidity_round, cap_liquidity, ceil_div, larger, max_liquidity_for_amounts,
    saturating_sub, smaller, value_in_stable,
};
use crate::vault_model::{
    all_harvested, closed_range, deployed, deposited, emptied, filled, limit_filled, limit_side,
    minted_share, minted_shares, placed, pro_rata_deposited, pro_rata_terms, rebalanced, redeemed,
    share_burned, slot_harvested, stage, topped_up, unwound, unwound_slot, Minting, Slot, Unwinding,
};
use vstd::prelude::*;

verus! {

/// The number, or a lower bound for it.
pub fn no_less(a: i64, b: i64) -> (r: i64)
    ensures
        r == larger(a as int, b as int),
{
    if a >= b {
        a
    } else {
        b
    }
}

/// The number, or an upper bound for it.
pub fn no_more(a: i64, b: i64) -> (r: i64)
    ensures
        r == smaller(a as int, b as int),
{
    if a <= b {
        a
    } else {
        b
    }
}

/// A signed amount, or zero where it is negative.
fn gain(x: I256) -> (r: U256)
    ensures
        r@ == larger(x@, 0),
{
    if x.is_positive() {
        x.abs()
    } else {
        U256::ZERO()
    }
}

impl Vault {
    /// Mints capped liquidity in a range, which then fills the slot.
    fn place(&mut self, pool: &mut CorePool, slot: Slot, lower: i64, upper: i64, raw: U256) -> (ok: bool)
        requires
            old(self).wf(),
            old(pool).wf(),
        ensures
            final(pool).wf(),
            pool_valid(old(pool)@) ==> pool_valid(final(pool)@),
            final(self).tick_spacing == old(self).tick_spacing,
            placed(old(self)@, old(pool)@, slot, lower as int, upper as int, raw@) == stage(
                ok,
                final(self)@,
                final(pool)@,
            ),
    {
        if raw.is_zero() {
            return true;
        }
        let (l, u) = match (as_tick(lower), as_tick(upper)) {
            (Some(l), Some(u)) => (l, u),
            _ => return false,
        };
        let liquidity: U256 = match cap_liquidity(
            pool.sqrt_price_x96(),
            l,
            u,
            raw,
            self.idle0,
            self.idle1,
        ) {
            Some(x) => x,
            None => return false,
        };
        if liquidity.is_zero() {
            return true;
        }
        if self.mint_range(pool, l, u, liquidity).is_none() {
            return false;
        }
        self.set_range(slot, Some(VaultPosition { tick_lower: l, tick_upper: u, liquidity }));
        true
    }

    /// Places as much as what is idle gives in a range.
    fn fill(&mut self, pool: &mut CorePool, slot: Slot, lower: i64, upper: i64) -> (ok: bool)
        requires
            old(self).wf(),
            old(pool).wf(),
        ensures
            final(pool).wf(),
            pool_valid(old(pool)@) ==> pool_valid(final(pool)@),
            final(self).tick_spacing == old(self).tick_spacing,
            filled(old(self)@, old(pool)@, slot, lower as int, upper as int) == stage(
                ok,
                final(self)@,
                final(pool)@,
            ),
    {
        reveal(filled);
        match wide_max_liquidity(pool.sqrt_price_x96(), lower, upper, self.idle0, self.idle1) {
            Some(raw) => self.place(pool, slot, lower, upper, raw),
            None => false,
        }
    }

    /// Places what is left idle beside the price.
    fn fill_limit(&mut self, pool: &mut CorePool, floor: i64, ceil: i64) -> (ok: bool)
        requires
            old(self).wf(),
            old(pool).wf(),
            -0x2_0000_0000 < floor < 0x2_0000_0000,
            -0x2_0000_0000 < ceil < 0x2_0000_0000,
        ensures
            final(pool).wf(),
            pool_valid(old(pool)@) ==> pool_valid(final(pool)@),
            final(self).tick_spacing == old(self).tick_spacing,
            limit_filled(old(self)@, old(pool)@, floor as int, ceil as int) == stage(
                ok,
                final(self)@,
                final(pool)@,
            ),
    {
        reveal(limit_filled);
        if self.idle0.is_zero() && self.idle1.is_zero() {
            return true;
        }
        match self.choose_side(pool, floor, ceil) {
            Some((lower, upper, raw)) => self.place(pool, Slot::Limit, lower, upper, raw),
            None => false,
        }
    }

    /// The side of the price that takes more of what is idle.
    fn choose_side(&self, pool: &CorePool, floor: i64, ceil: i64) -> (r: Option<(i64, i64, U256)>)
        requires
            -0x2_0000_0000 < floor < 0x2_0000_0000,
            -0x2_0000_0000 < ceil < 0x2_0000_0000,
        ensures
            limit_side(self@, pool@, floor as int, ceil as int) == (match r {
                Some(x) => Some((x.0 as int, x.1 as int, x.2@)),
                None => None,
            }),
    {
        let t: i64 = self.params.limit_threshold as i64;
        let sqrt_price: U256 = pool.sqrt_price_x96();
        let mut bid: U256 = U256::ZERO();
        let mut ask: U256 = U256::ZERO();
        if t > 0 {
            bid = match wide_max_liquidity(sqrt_price, floor - t, floor, self.idle0, self.idle1) {
                Some(x) => x,
                None => return None,
            };
            ask = match wide_max_liquidity(sqrt_price, ceil, ceil + t, self.idle0, self.idle1) {
                Some(x) => x,
                None => return None,
            };
        }
        if bid > ask {
            Some((floor - t, floor, bid))
        } else {
            Some((ceil, ceil + t, ask))
        }
    }

    /// As `rebalance_from_idle`; false where it fails, with vault and pool left partway.
    pub fn try_rebalance_from_idle(&mut self, pool: &mut CorePool) -> (ok: bool)
        requires
            old(self).wf(),
            old(pool).wf(),
        ensures
            final(pool).wf(),
            pool_valid(old(pool)@) ==> pool_valid(final(pool)@),
            final(self).tick_spacing == old(self).tick_spacing,
            rebalanced(old(self)@, old(pool)@) == stage(
                ok,
                final(self)@,
                final(pool)@,
            ),
    {
        reveal(rebalanced);
        let floor: i64 = floor_tick(pool.tick_current(), self.tick_spacing);
        let ceil: i64 = floor + self.tick_spacing as i64;
        let base: i64 = self.params.base_threshold as i64;
        let wide: i64 = self.params.wide_threshold as i64;
        let use_wide: bool = self.params.wide_range_weight > 0;
        let base_lower: i64 = no_less(floor - base, MIN_TICK as i64);
        let base_upper: i64 = no_more(ceil + base, MAX_TICK as i64);
        if base_lower < base_upper && (!self.idle0.is_zero() || !self.idle1.is_zero()) {
            if !self.fill(pool, Slot::Base, base_lower, base_upper) {
                return false;
            }
        }
        if use_wide && (!self.idle0.is_zero() || !self.idle1.is_zero()) {
            let wide_lower: i64 = no_less(floor - wide, MIN_TICK as i64);
            let wide_upper: i64 = no_more(ceil + wide, MAX_TICK as i64);
            if wide_lower >= wide_upper {
                return true;
            }
            if !self.fill(pool, Slot::Wide, wide_lower, wide_upper) {
                return false;
            }
        }
        self.fill_limit(pool, floor, ceil)
    }

    /// Places what is idle around the current tick: in the base range, then in the wide
    /// one if it has a weight, then on the side of the price that takes more.
    pub fn rebalance_from_idle(&mut self, pool: &mut CorePool)
        requires
            old(self).wf(),
            old(pool).wf(),
            rebalanced(old(self)@, old(pool)@) is Some,
        ensures
            final(pool).wf(),
            pool_valid(old(pool)@) ==> pool_valid(final(pool)@),
            final(self).tick_spacing == old(self).tick_spacing,
            rebalanced(old(self)@, old(pool)@) == Some((final(self)@, final(pool)@)),
    {
        let _ = self.try_rebalance_from_idle(pool);
    }

    /// Mints what is idle into the range that a slot has.
    fn top_up(&mut self, pool: &mut CorePool, slot: Slot) -> (ok: bool)
        requires
            old(self).wf(),
            old(pool).wf(),
        ensures
            final(pool).wf(),
            pool_valid(old(pool)@) ==> pool_valid(final(pool)@),
            final(self).tick_spacing == old(self).tick_spacing,
            topped_up(old(self)@, old(pool)@, slot) == stage(
                ok,
                final(self)@,
                final(pool)@,
            ),
    {
        reveal(topped_up);
        let r: VaultPosition = match self.range(slot) {
            Some(x) => x,
            None => return true,
        };
        if self.idle0.is_zero() && self.idle1.is_zero() {
            return true;
        }
        let l: U256 = match max_liquidity_for_amounts(
            pool.sqrt_price_x96(),
            r.tick_lower,
            r.tick_upper,
            self.idle0,
            self.idle1,
        ) {
            Some(x) => x,
            None => return false,
        };
        if l.is_zero() {
            return true;
        }
        if self.mint_range(pool, r.tick_lower, r.tick_upper, l).is_none() {
            return false;
        }
        self.set_range(slot, Some(VaultPosition { liquidity: r.liquidity + l, ..r }));
        true
    }

    /// As `deploy_idle_to_lp`; false where it fails, with vault and pool left partway.
    pub fn try_deploy_idle_to_lp(&mut self, pool: &mut CorePool) -> (ok: bool)
        requires
            old(self).wf(),
            old(pool).wf(),
        ensures
            final(pool).wf(),
            pool_valid(old(pool)@) ==> pool_valid(final(pool)@),
            final(self).tick_spacing == old(self).tick_spacing,
            deployed(old(self)@, old(pool)@) == stage(
                ok,
                final(self)@,
                final(pool)@,
            ),
    {
        self.top_up(pool, Slot::Base) && self.top_up(pool, Slot::Wide) && self.top_up(
            pool,
            Slot::Limit,
        )
    }

    /// Mints what is idle into the ranges as they stand.
    pub fn deploy_idle_to_lp(&mut self, pool: &mut CorePool)
        requires
            old(self).wf(),
            old(pool).wf(),
            deployed(old(self)@, old(pool)@) is Some,
        ensures
            final(pool).wf(),
            pool_valid(old(pool)@) ==> pool_valid(final(pool)@),
            final(self).tick_spacing == old(self).tick_spacing,
            deployed(old(self)@, old(pool)@) == Some((final(self)@, final(pool)@)),
    {
        let _ = self.try_deploy_idle_to_lp(pool);
    }

    /// As `deposit`; false where it fails, with vault and pool left partway.
    pub fn try_deposit(&mut self, pool: &mut CorePool, amount0: U256, amount1: U256) -> (ok: bool)
        requires
            old(self).wf(),
            old(pool).wf(),
        ensures
            final(pool).wf(),
            pool_valid(old(pool)@) ==> pool_valid(final(pool)@),
            final(self).tick_spacing == old(self).tick_spacing,
            deposited(old(self)@, old(pool)@, amount0@, amount1@) == stage(
                ok,
                final(self)@,
                final(pool)@,
            ),
    {
        if self.total_supply.is_zero() {
            self.total_supply = max_u256(U256::from_u128(1000), max_u256(amount0, amount1));
        }
        self.add_idle(amount0, amount1);
        self.try_rebalance_from_idle(pool)
    }

    /// Takes a deposit and places it. The first one sets the number of shares.
    pub fn deposit(&mut self, pool: &mut CorePool, amount0: U256, amount1: U256)
        requires
            old(self).wf(),
            old(pool).wf(),
            deposited(old(self)@, old(pool)@, amount0@, amount1@) is Some,
        ensures
            final(pool).wf(),
            pool_valid(old(pool)@) ==> pool_valid(final(pool)@),
            final(self).tick_spacing == old(self).tick_spacing,
            deposited(old(self)@, old(pool)@, amount0@, amount1@) == Some((final(self)@, final(pool)@)),
    {
        let _ = self.try_deposit(pool, amount0, amount1);
    }

    /// What a deposit takes of the amounts offered, and the shares for it.
    fn deposit_terms(t0: U256, t1: U256, supply: U256, d0: U256, d1: U256) -> (r: Option<
        (U256, U256, U256),
    >)
        ensures
            pro_rata_terms(t0@, t1@, supply@, d0@, d1@) == (match r {
                Some(x) => Some((x.0@, x.1@, x.2@)),
                None => None,
            }),
    {
        let zero: U256 = U256::ZERO();
        if supply.is_zero() || (t0.is_zero() && t1.is_zero()) {
            Some((zero, zero, zero))
        } else if t0.is_zero() {
            Some((zero, d1, mul_div(d1, supply, t1)))
        } else if t1.is_zero() {
            Some((d0, zero, mul_div(d0, supply, t0)))
        } else {
            let cross: U256 = min_u256(d0 * t1, d1 * t0);
            if cross.is_zero() {
                return Some((zero, zero, zero));
            }
            let product: U256 = t0 * t1;
            if product.is_zero() {
                return None;
            }
            Some((ceil_div(cross, t1), ceil_div(cross, t0), cross * supply / product))
        }
    }

    /// Mints the part of a deposit that goes to one range. Returns what is left of it.
    fn mint_share(
        &mut self,
        pool: &mut CorePool,
        slot: Slot,
        shares: U256,
        supply: U256,
        left0: U256,
        left1: U256,
    ) -> (r: Option<(U256, U256)>)
        requires
            old(pool).wf(),
            supply@ != 0,
        ensures
            final(pool).wf(),
            pool_valid(old(pool)@) ==> pool_valid(final(pool)@),
            final(self).tick_spacing == old(self).tick_spacing,
            minted_share(
                (Minting {
                    vault: old(self)@,
                    pool: old(pool)@,
                    left0: left0@,
                    left1: left1@,
                }),
                slot,
                shares@,
                supply@,
            ) == (match r {
                Some(x) => Some(
                    (Minting {
                        vault: final(self)@,
                        pool: final(pool)@,
                        left0: x.0@,
                        left1: x.1@,
                    }),
                ),
                None => None,
            }),
    {
        reveal(minted_share);
        let p: VaultPosition = match self.range(slot) {
            Some(x) => x,
            None => return Some((left0, left1)),
        };
        if p.liquidity.is_zero() {
            return Some((left0, left1));
        }
        let most: U256 = match max_liquidity_for_amounts(
            pool.sqrt_price_x96(),
            p.tick_lower,
            p.tick_upper,
            left0,
            left1,
        ) {
            Some(x) => x,
            None => return None,
        };
        let l: U256 = min_u256(mul_div(p.liquidity, shares, supply), most);
        if l.is_zero() {
            return Some((left0, left1));
        }
        let (used0, used1) = match self.mint_range(pool, p.tick_lower, p.tick_upper, l) {
            Some(x) => x,
            None => return None,
        };
        self.set_range(slot, Some(VaultPosition { liquidity: p.liquidity + l, ..p }));
        Some((saturating_sub(left0, used0), saturating_sub(left1, used1)))
    }

    /// Mints all parts of a deposit.
    fn mint_shares(
        &mut self,
        pool: &mut CorePool,
        shares: U256,
        supply: U256,
        left0: U256,
        left1: U256,
    ) -> (r: Option<(U256, U256)>)
        requires
            old(pool).wf(),
            supply@ != 0,
        ensures
            final(pool).wf(),
            pool_valid(old(pool)@) ==> pool_valid(final(pool)@),
            final(self).tick_spacing == old(self).tick_spacing,
            minted_shares(
                (Minting {
                    vault: old(self)@,
                    pool: old(pool)@,
                    left0: left0@,
                    left1: left1@,
                }),
                shares@,
                supply@,
            ) == (match r {
                Some(x) => Some(
                    (Minting {
                        vault: final(self)@,
                        pool: final(pool)@,
                        left0: x.0@,
                        left1: x.1@,
                    }),
                ),
                None => None,
            }),
    {
        let (a0, a1) = match self.mint_share(pool, Slot::Wide, shares, supply, left0, left1) {
            Some(x) => x,
            None => return None,
        };
        let (b0, b1) = match self.mint_share(pool, Slot::Base, shares, supply, a0, a1) {
            Some(x) => x,
            None => return None,
        };
        self.mint_share(pool, Slot::Limit, shares, supply, b0, b1)
    }

    /// As `deposit_pro_rata`; `None` where it fails, with vault and pool left partway.
    pub fn try_deposit_pro_rata(&mut self, pool: &mut CorePool, amount0_desired: U256, amount1_desired: U256) -> (r: Option<(U256, U256)>)
        requires
            old(self).wf(),
            old(pool).wf(),
        ensures
            final(pool).wf(),
            pool_valid(old(pool)@) ==> pool_valid(final(pool)@),
            final(self).tick_spacing == old(self).tick_spacing,
            pro_rata_deposited(old(self)@, old(pool)@, amount0_desired@, amount1_desired@) == (match r {
                Some(x) => Some((final(self)@, final(pool)@, x.0@, x.1@)),
                None => None,
            }),
    {
        reveal(pro_rata_deposited);
        let (t0, t1) = match self.try_totals(pool, pool.sqrt_price_x96(), true) {
            Some(x) => x,
            None => return None,
        };
        let supply: U256 = self.total_supply;
        let (a0, a1, shares) = match Self::deposit_terms(
            t0,
            t1,
            supply,
            amount0_desired,
            amount1_desired,
        ) {
            Some(x) => x,
            None => return None,
        };
        if shares.is_zero() {
            return Some((U256::ZERO(), U256::ZERO()));
        }
        self.add_idle(a0, a1);
        if self.mint_shares(pool, shares, supply, a0, a1).is_none() {
            return None;
        }
        self.total_supply = supply + shares;
        Some((a0, a1))
    }

    /// Takes of the amounts offered what is in the proportion of the holdings, and mints
    /// it into the ranges. Returns what it took.
    pub fn deposit_pro_rata(&mut self, pool: &mut CorePool, amount0_desired: U256, amount1_desired: U256) -> (r: (U256, U256))
        requires
            old(self).wf(),
            old(pool).wf(),
            pro_rata_deposited(old(self)@, old(pool)@, amount0_desired@, amount1_desired@) is Some,
        ensures
            final(pool).wf(),
            pool_valid(old(pool)@) ==> pool_valid(final(pool)@),
            final(self).tick_spacing == old(self).tick_spacing,
            pro_rata_deposited(old(self)@, old(pool)@, amount0_desired@, amount1_desired@) == Some((final(self)@, final(pool)@, r.0@, r.1@)),
    {
        match self.try_deposit_pro_rata(pool, amount0_desired, amount1_desired) {
            Some(x) => x,
            None => (U256::ZERO(), U256::ZERO()),
        }
    }

    /// Gives up a range as a whole.
    fn close_range(&mut self, pool: &mut CorePool, range: Option<VaultPosition>) -> (ok: bool)
        requires
            old(self).wf(),
            old(pool).wf(),
        ensures
            final(pool).wf(),
            pool_valid(old(pool)@) ==> pool_valid(final(pool)@),
            final(self).tick_spacing == old(self).tick_spacing,
            closed_range(old(self)@, old(pool)@, range_view(range)) == stage(
                ok,
                final(self)@,
                final(pool)@,
            ),
    {
        reveal(closed_range);
        let p: VaultPosition = match range {
            Some(x) => x,
            None => return true,
        };
        if p.liquidity.is_zero() {
            return true;
        }
        self.burn_range(pool, p.tick_lower, p.tick_upper, p.liquidity).is_some()
    }

    /// As `withdraw_all`; false where it fails, with vault and pool left partway.
    pub fn try_withdraw_all(&mut self, pool: &mut CorePool) -> (ok: bool)
        requires
            old(self).wf(),
            old(pool).wf(),
        ensures
            final(pool).wf(),
            pool_valid(old(pool)@) ==> pool_valid(final(pool)@),
            final(self).tick_spacing == old(self).tick_spacing,
            emptied(old(self)@, old(pool)@) == stage(
                ok,
                final(self)@,
                final(pool)@,
            ),
    {
        let wide: Option<VaultPosition> = self.wide;
        let base: Option<VaultPosition> = self.base;
        let limit: Option<VaultPosition> = self.limit;
        self.wide = None;
        self.base = None;
        self.limit = None;
        self.close_range(pool, wide) && self.close_range(pool, base) && self.close_range(pool, limit)
    }

    /// Gives up all ranges.
    pub fn withdraw_all(&mut self, pool: &mut CorePool)
        requires
            old(self).wf(),
            old(pool).wf(),
            emptied(old(self)@, old(pool)@) is Some,
        ensures
            final(pool).wf(),
            pool_valid(old(pool)@) ==> pool_valid(final(pool)@),
            final(self).tick_spacing == old(self).tick_spacing,
            emptied(old(self)@, old(pool)@) == Some((final(self)@, final(pool)@)),
    {
        let _ = self.try_withdraw_all(pool);
    }

    /// Collects the fees of the range that a slot has.
    fn harvest_slot(&mut self, pool: &mut CorePool, slot: Slot) -> (ok: bool)
        requires
            old(self).wf(),
            old(pool).wf(),
        ensures
            final(pool).wf(),
            pool_valid(old(pool)@) ==> pool_valid(final(pool)@),
            final(self).tick_spacing == old(self).tick_spacing,
            slot_harvested(old(self)@, old(pool)@, slot) == stage(
                ok,
                final(self)@,
                final(pool)@,
            ),
    {
        match self.range(slot) {
            Some(p) => self.harvest(pool, p.tick_lower, p.tick_upper),
            None => true,
        }
    }

    /// As `collect_fees`; false where it fails, with vault and pool left partway.
    pub fn try_collect_fees(&mut self, pool: &mut CorePool) -> (ok: bool)
        requires
            old(self).wf(),
            old(pool).wf(),
        ensures
            final(pool).wf(),
            pool_valid(old(pool)@) ==> pool_valid(final(pool)@),
            final(self).tick_spacing == old(self).tick_spacing,
            all_harvested(old(self)@, old(pool)@) == stage(
                ok,
                final(self)@,
                final(pool)@,
            ),
    {
        self.harvest_slot(pool, Slot::Wide) && self.harvest_slot(pool, Slot::Base)
            && self.harvest_slot(pool, Slot::Limit)
    }

    /// Collects the fees of all ranges.
    pub fn collect_fees(&mut self, pool: &mut CorePool)
        requires
            old(self).wf(),
            old(pool).wf(),
            all_harvested(old(self)@, old(pool)@) is Some,
        ensures
            final(pool).wf(),
            pool_valid(old(pool)@) ==> pool_valid(final(pool)@),
            final(self).tick_spacing == old(self).tick_spacing,
            all_harvested(old(self)@, old(pool)@) == Some((final(self)@, final(pool)@)),
    {
        let _ = self.try_collect_fees(pool);
    }

    /// Unwinds one range until the value still wanted has come out. Returns what is still
    /// wanted and what has come out.
    fn unwind_slot(
        &mut self,
        pool: &mut CorePool,
        slot: Slot,
        price_wad: U256,
        left: U256,
        out0: U256,
        out1: U256,
    ) -> (r: Option<(U256, U256, U256)>)
        requires
            old(pool).wf(),
        ensures
            final(pool).wf(),
            pool_valid(old(pool)@) ==> pool_valid(final(pool)@),
            final(self).tick_spacing == old(self).tick_spacing,
            unwound_slot(
                (Unwinding {
                    vault: old(self)@,
                    pool: old(pool)@,
                    left: left@,
                    out0: out0@,
                    out1: out1@,
                }),
                slot,
                price_wad@,
            ) == (match r {
                Some(x) => Some(
                    (Unwinding {
                        vault: final(self)@,
                        pool: final(pool)@,
                        left: x.0@,
                        out0: x.1@,
                        out1: x.2@,
                    }),
                ),
                None => None,
            }),
    {
        reveal(unwound_slot);
        let p: VaultPosition = match self.range(slot) {
            Some(x) => x,
            None => return Some((left, out0, out1)),
        };
        if left.is_zero() || p.liquidity.is_zero() {
            return Some((left, out0, out1));
        }
        let (a0, a1) = match amounts_for_liquidity_round(
            pool.sqrt_price_x96(),
            p.tick_lower,
            p.tick_upper,
            p.liquidity,
            false,
        ) {
            Some(x) => x,
            None => return None,
        };
        let vol0: bool = self.pool_config.is_volatile_token0();
        let value: U256 = value_in_stable(vol0, a0, a1, price_wad);
        if value.is_zero() {
            return Some((left, out0, out1));
        }
        let l: U256 = if left >= value {
            p.liquidity
        } else {
            mul_div(p.liquidity, left, value)
        };
        if l.is_zero() {
            return Some((left, out0, out1));
        }
        let (c0, c1) = match self.burn_range(pool, p.tick_lower, p.tick_upper, l) {
            Some((_, c)) => c,
            None => return None,
        };
        self.set_range(slot, Some(VaultPosition { liquidity: p.liquidity - l, ..p }));
        let got: U256 = value_in_stable(vol0, c0, c1, price_wad);
        Some((saturating_sub(left, got), out0 + c0, out1 + c1))
    }

    /// Unwinds ranges until a value in stable units has come out: the limit range first,
    /// the wide one last. Returns what has come out.
    pub(crate) fn partial_deleverage(
        &mut self,
        pool: &mut CorePool,
        target_stable: U256,
        price_wad: U256,
    ) -> (r: Option<(U256, U256)>)
        requires
            old(pool).wf(),
        ensures
            final(pool).wf(),
            pool_valid(old(pool)@) ==> pool_valid(final(pool)@),
            final(self).tick_spacing == old(self).tick_spacing,
            match unwound(old(self)@, old(pool)@, target_stable@, price_wad@) {
                Some(u) => r matches Some(x) && u.vault == final(self)@ && u.pool == final(pool)@
                    && u.out0 == x.0@ && u.out1 == x.1@,
                None => r is None,
            },
    {
        let zero: U256 = U256::ZERO();
        let (left, a0, a1) = match self.unwind_slot(
            pool,
            Slot::Limit,
            price_wad,
            target_stable,
            zero,
            zero,
        ) {
            Some(x) => x,
            None => return None,
        };
        let (left, b0, b1) = match self.unwind_slot(pool, Slot::Base, price_wad, left, a0, a1) {
            Some(x) => x,
            None => return None,
        };
        match self.unwind_slot(pool, Slot::Wide, price_wad, left, b0, b1) {
            Some((_, c0, c1)) => Some((c0, c1)),
            None => None,
        }
    }

    /// Burns a share of one range. Returns what has come out for the shares.
    fn burn_share(
        &mut self,
        pool: &mut CorePool,
        slot: Slot,
        shares: U256,
        supply: U256,
        out: (U256, U256),
    ) -> (r: Option<(U256, U256)>)
        requires
            old(pool).wf(),
            supply@ != 0,
        ensures
            final(pool).wf(),
            pool_valid(old(pool)@) ==> pool_valid(final(pool)@),
            final(self).tick_spacing == old(self).tick_spacing,
            share_burned(
                old(self)@,
                old(pool)@,
                slot,
                shares@,
                supply@,
                (out.0@, out.1@),
            ) == (match r {
                Some(x) => Some((final(self)@, final(pool)@, (x.0@, x.1@))),
                None => None,
            }),
    {
        reveal(share_burned);
        let p: VaultPosition = match self.range(slot) {
            Some(x) => x,
            None => return Some(out),
        };
        if p.liquidity.is_zero() {
            return Some(out);
        }
        let l: U256 = mul_div(p.liquidity, shares, supply);
        if l.is_zero() {
            return Some(out);
        }
        let ((b0, b1), (c0, c1)) = match self.burn_range(pool, p.tick_lower, p.tick_upper, l) {
            Some(x) => x,
            None => return None,
        };
        let g0: U256 = gain(b0);
        let g1: U256 = gain(b1);
        let f0: U256 = mul_div(saturating_sub(c0, g0), shares, supply);
        let f1: U256 = mul_div(saturating_sub(c1, g1), shares, supply);
        self.set_range(slot, Some(VaultPosition { liquidity: p.liquidity - l, ..p }));
        Some((out.0 + g0 + f0, out.1 + g1 + f1))
    }

    /// As `withdraw_shares`; `None` where it fails, with vault and pool left partway.
    pub fn try_withdraw_shares(&mut self, pool: &mut CorePool, shares: U256) -> (r: Option<(U256, U256)>)
        requires
            old(self).wf(),
            old(pool).wf(),
        ensures
            final(pool).wf(),
            pool_valid(old(pool)@) ==> pool_valid(final(pool)@),
            final(self).tick_spacing == old(self).tick_spacing,
            redeemed(old(self)@, old(pool)@, shares@) == (match r {
                Some(x) => Some((final(self)@, final(pool)@, (x.0@, x.1@))),
                None => None,
            }),
    {
        let zero: U256 = U256::ZERO();
        let supply: U256 = self.total_supply;
        if shares.is_zero() || supply.is_zero() {
            return Some((zero, zero));
        }
        self.total_supply = supply - shares;
        let out: (U256, U256) = (
            mul_div(self.idle0, shares, supply),
            mul_div(self.idle1, shares, supply),
        );
        let out: (U256, U256) = match self.burn_share(pool, Slot::Wide, shares, supply, out) {
            Some(x) => x,
            None => return None,
        };
        let out: (U256, U256) = match self.burn_share(pool, Slot::Base, shares, supply, out) {
            Some(x) => x,
            None => return None,
        };
        let out: (U256, U256) = match self.burn_share(pool, Slot::Limit, shares, supply, out) {
            Some(x) => x,
            None => return None,
        };
        self.take_idle(out.0, out.1);
        Some(out)
    }

    /// Redeems shares: burns their part of every range and pays their part of what is
    /// idle and of the fees. Returns what they were worth.
    pub fn withdraw_shares(&mut self, pool: &mut CorePool, shares: U256) -> (r: (U256, U256))
        requires
            old(self).wf(),
            old(pool).wf(),
            redeemed(old(self)@, old(pool)@, shares@) is Some,
        ensures
            final(pool).wf(),
            pool_valid(old(pool)@) ==> pool_valid(final(pool)@),
            final(self).tick_spacing == old(self).tick_spacing,
            redeemed(old(self)@, old(pool)@, shares@) == Some((final(self)@, final(pool)@, (r.0@, r.1@))),
    {
        match self.try_withdraw_shares(pool, shares) {
            Some(x) => x,
            None => (U256::ZERO(), U256::ZERO()),
        }
    }
}

} // verus!
