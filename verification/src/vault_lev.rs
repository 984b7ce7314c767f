//! The leverage market maker of a vault.
use crate::config::LevAmmConfig;
use crate::core_pool::CorePool;
use crate::full_math::{mul_div, try_mul_div, try_mul_div_rounding_up};
use crate::lev_model::{
    burn_goal, capped_trade, lev_applied, lev_bounds, lev_burn, lev_burned, lev_mint, lev_minted,
    lev_minted_slot, lev_quote, lev_run, lev_started, lev_step, lev_traded, mint_goal, Bounds,
    LevTerms, Quote,
};
use crate::pool_model::pool_valid;
use crate::sqrt_price_math::opt;
use crate::types::{min_u256, U256};
use crate::vault::{price_choice, Vault, VaultPosition};
use crate::vault_math::{
    cap_liquidity, fee_den, lev_amm_collateral_for_debt, lev_amm_collateral_for_price,
    lev_amm_curve_ratio_wad, lev_amm_curve_x0, lev_amm_debt_for_collateral, lev_amm_lp_acquire_cost,
    lev_amm_lp_acquire_cost_wad, lev_amm_lp_unwind_proceeds, lev_amm_lp_unwind_proceeds_wad,
    lev_amm_stable_split, max_liquidity_for_amounts, one_wad, pool_price, roles, saturating_sub,
    stable_to_volatile, value_in_stable, volatile_to_stable, wad,
};
use crate::vault_model::{stage, LevAmmOpMode, Slot};
use vstd::prelude::*;

verus! {

/// The terms of a configuration.
pub open spec fn lev_terms(c: LevAmmConfig) -> LevTerms {
    LevTerms {
        fee: c.swap_fee_ppm as int,
        cap: match c.max_arb_per_tick_ppm {
            Some(m) => Some(m as int),
            None => None,
        },
    }
}

#[derive(Clone, Copy)]
struct LevBounds {
    ratio: U256,
    goal: U256,
    limit: U256,
}

impl View for LevBounds {
    type V = Bounds;

    closed spec fn view(&self) -> Bounds {
        Bounds { ratio: self.ratio@, goal: self.goal@, limit: self.limit@ }
    }
}

#[derive(Clone, Copy)]
struct LevQuote {
    coll: U256,
    stable: U256,
    total: U256,
    ratio: U256,
    x0: U256,
    sell: U256,
    buy: U256,
    least: U256,
    most: U256,
}

impl View for LevQuote {
    type V = Quote;

    closed spec fn view(&self) -> Quote {
        Quote {
            coll: self.coll@,
            stable: self.stable@,
            total: self.total@,
            ratio: self.ratio@,
            x0: self.x0@,
            sell: self.sell@,
            buy: self.buy@,
            least: self.least@,
            most: self.most@,
        }
    }
}

fn cap_trade(coll: U256, wanted: U256, cfg: &LevAmmConfig) -> (r: U256)
    ensures
        r@ == capped_trade(coll@, wanted@, lev_terms(*cfg).cap),
{
    match cfg.max_arb_per_tick_ppm {
        Some(m) => min_u256(wanted, coll * U256::from_u128(m) / fee_den()),
        None => wanted,
    }
}

impl LevQuote {
    fn mint_goal(&self) -> (r: Option<U256>)
        ensures
            opt(r) == mint_goal(self@),
    {
        let goal: U256 = match lev_amm_collateral_for_price(self.ratio, self.x0, self.sell, true) {
            Some(x) => x,
            None => return None,
        };
        let last: U256 = lev_amm_collateral_for_debt(self.ratio, self.x0, self.most);
        if !last.is_zero() && (goal.is_zero() || goal > last) {
            Some(last)
        } else {
            Some(goal)
        }
    }

    fn burn_goal(&self) -> (r: Option<U256>)
        ensures
            opt(r) == burn_goal(self@),
    {
        let goal: U256 = match lev_amm_collateral_for_price(self.ratio, self.x0, self.buy, false) {
            Some(x) => x,
            None => return None,
        };
        let last: U256 = lev_amm_collateral_for_debt(self.ratio, self.x0, self.least);
        if !last.is_zero() && (goal.is_zero() || goal < last) {
            Some(last)
        } else {
            Some(goal)
        }
    }
}

fn bounds_for(coll: U256, tc: U256) -> (r: Option<LevBounds>)
    requires
        tc@ > one_wad(),
    ensures
        lev_bounds(coll@, tc@) == (match r {
            Some(b) => Some(b@),
            None => None,
        }),
{
    reveal(lev_bounds);
    let zero: U256 = U256::ZERO();
    let ratio: U256 = match lev_amm_curve_ratio_wad(tc) {
        Some(x) => x,
        None => return None,
    };
    if ratio.is_zero() {
        return Some(LevBounds { ratio, goal: zero, limit: zero });
    }
    match try_mul_div(coll, wad(), U256::from_u128(4) * ratio) {
        Some(limit) => Some(LevBounds { ratio, goal: mul_div(coll, wad(), tc), limit }),
        None => None,
    }
}

fn quote_for(debt: U256, coll: U256, stable: U256, total: U256, b: &LevBounds, fee: U256) -> (r:
    Option<LevQuote>)
    ensures
        lev_quote(debt@, coll@, stable@, total@, b@, fee@) == (match r {
            Some(q) => Some(q@),
            None => None,
        }),
{
    reveal(lev_quote);
    let zero: U256 = U256::ZERO();
    let x0: U256 = match lev_amm_curve_x0(coll, min_u256(debt, b.limit), b.ratio) {
        Some(x) => x,
        None => return None,
    };
    let blank: LevQuote = LevQuote {
        coll,
        stable,
        total,
        ratio: b.ratio,
        x0,
        sell: zero,
        buy: zero,
        least: zero,
        most: zero,
    };
    if x0.is_zero() {
        return Some(blank);
    }
    let cost: U256 = match lev_amm_lp_acquire_cost_wad(stable, total, fee) {
        Some(x) => x,
        None => return None,
    };
    let sell: U256 = match try_mul_div_rounding_up(cost, fee_den(), fee_den() - fee) {
        Some(x) => x,
        None => return None,
    };
    let proceeds: U256 = lev_amm_lp_unwind_proceeds_wad(stable, total, fee);
    let buy: U256 = match try_mul_div(proceeds, fee_den(), fee_den() + fee) {
        Some(x) => x,
        None => return None,
    };
    let margin: U256 = coll / U256::from_u128(32);
    let most: U256 = if b.limit > margin {
        saturating_sub(b.limit, margin)
    } else {
        b.limit
    };
    Some(LevQuote { sell, buy, least: b.goal / U256::from_u128(8), most, ..blank })
}

impl Vault {
    fn add_stable(&mut self, amount: U256)
        ensures
            final(self)@ == old(self)@.plus_stable(amount@),
            final(self).tick_spacing == old(self).tick_spacing,
    {
        if self.pool_config.is_volatile_token0() {
            self.idle1 = self.idle1 + amount;
        } else {
            self.idle0 = self.idle0 + amount;
        }
    }

    fn lev_amm_start(&mut self, total: U256, volatile_value: U256, tc: U256)
        requires
            tc@ > one_wad(),
        ensures
            final(self)@ == lev_started(old(self)@, total@, volatile_value@, tc@),
            final(self).tick_spacing == old(self).tick_spacing,
    {
        reveal(lev_started);
        let amount: U256 = mul_div(volatile_value, saturating_sub(tc, wad()), wad());
        if amount.is_zero() {
            return;
        }
        self.virtual_debt = self.virtual_debt + amount;
        self.lev_amm_notional = total + amount;
        self.lev_amm_collateral = total + amount;
        self.pending_lev_amm_mode = Some(LevAmmOpMode::Mint);
        self.pending_lev_amm_trade = amount;
        self.pending_lev_amm_is_init = true;
        self.add_stable(amount);
    }

    fn lev_amm_mint(&mut self, q: &LevQuote, cfg: &LevAmmConfig, price: U256) -> (r: Option<U256>)
        ensures
            lev_mint(old(self)@, q@, lev_terms(*cfg), price@) == (match r {
                Some(fee) => Some((final(self)@, fee@)),
                None => None,
            }),
            final(self).tick_spacing == old(self).tick_spacing,
    {
        reveal(lev_mint);
        let zero: U256 = U256::ZERO();
        let goal: U256 = match q.mint_goal() {
            Some(x) => x,
            None => return None,
        };
        if goal <= q.coll {
            return Some(zero);
        }
        let trade: U256 = cap_trade(q.coll, saturating_sub(goal, q.coll), cfg);
        if trade.is_zero() {
            return Some(zero);
        }
        let debt: U256 = match lev_amm_debt_for_collateral(q.ratio, q.x0, q.coll + trade) {
            Some(x) => x,
            None => return None,
        };
        if debt <= self.virtual_debt {
            return Some(zero);
        }
        let fee_num: U256 = U256::from_u128(cfg.swap_fee_ppm);
        let principal: U256 = saturating_sub(debt, self.virtual_debt);
        let fee: U256 = mul_div(principal, fee_num, fee_den());
        let cost: U256 = match lev_amm_lp_acquire_cost(trade, q.stable, q.total, fee_num) {
            Some(x) => x,
            None => return None,
        };
        if saturating_sub(principal, fee) <= cost {
            return Some(zero);
        }
        let vol0: bool = self.pool_config.is_volatile_token0();
        let (s, rest) = lev_amm_stable_split(trade, q.stable, q.total);
        let (a0, a1) = roles(vol0, stable_to_volatile(vol0, rest, price), s);
        self.virtual_debt = debt;
        self.pending_lev_amm_mint_amount0 = a0;
        self.pending_lev_amm_mint_amount1 = a1;
        self.lev_amm_fee_revenue = self.lev_amm_fee_revenue + fee;
        self.pending_lev_amm_mode = Some(LevAmmOpMode::Mint);
        self.pending_lev_amm_trade = trade;
        self.add_stable(fee);
        Some(fee)
    }

    fn lev_amm_burn(&mut self, q: &LevQuote, cfg: &LevAmmConfig) -> (r: Option<U256>)
        ensures
            lev_burn(old(self)@, q@, lev_terms(*cfg)) == (match r {
                Some(fee) => Some((final(self)@, fee@)),
                None => None,
            }),
            final(self).tick_spacing == old(self).tick_spacing,
    {
        reveal(lev_burn);
        let zero: U256 = U256::ZERO();
        let goal: U256 = match q.burn_goal() {
            Some(x) => x,
            None => return None,
        };
        if goal >= q.coll || goal.is_zero() {
            return Some(zero);
        }
        let trade: U256 = cap_trade(q.coll, saturating_sub(q.coll, goal), cfg);
        if trade.is_zero() {
            return Some(zero);
        }
        let mut debt: U256 = match lev_amm_debt_for_collateral(q.ratio, q.x0, q.coll - trade) {
            Some(x) => x,
            None => return None,
        };
        if debt < q.least {
            debt = q.least;
        }
        if debt >= self.virtual_debt {
            return Some(zero);
        }
        let fee_num: U256 = U256::from_u128(cfg.swap_fee_ppm);
        let principal: U256 = saturating_sub(self.virtual_debt, debt);
        let fee: U256 = mul_div(principal, fee_num, fee_den());
        if lev_amm_lp_unwind_proceeds(trade, q.stable, q.total, fee_num) <= principal + fee {
            return Some(zero);
        }
        self.virtual_debt = debt;
        self.lev_amm_fee_revenue = self.lev_amm_fee_revenue + fee;
        self.pending_lev_amm_mode = Some(LevAmmOpMode::Burn);
        self.pending_lev_amm_trade = trade;
        self.add_stable(fee);
        Some(fee)
    }

    fn lev_amm_trade(
        &mut self,
        coll: U256,
        stable: U256,
        total: U256,
        price: U256,
        cfg: &LevAmmConfig,
        tc: U256,
    ) -> (r: Option<U256>)
        requires
            tc@ > one_wad(),
        ensures
            lev_traded(old(self)@, coll@, stable@, total@, price@, lev_terms(*cfg), tc@) == (
            match r {
                Some(fee) => Some((final(self)@, fee@)),
                None => None,
            }),
            final(self).tick_spacing == old(self).tick_spacing,
    {
        reveal(lev_traded);
        let zero: U256 = U256::ZERO();
        let debt: U256 = self.virtual_debt;
        let b: LevBounds = match bounds_for(coll, tc) {
            Some(x) => x,
            None => return None,
        };
        if b.ratio.is_zero() {
            return Some(zero);
        }
        if debt > b.limit && debt < b.goal {
            self.lev_amm_insolvent = true;
            return Some(zero);
        }
        if self.lev_amm_insolvent && debt <= b.limit {
            self.lev_amm_insolvent = false;
        }
        let fee_num: U256 = U256::from_u128(cfg.swap_fee_ppm);
        let after_fee: U256 = fee_den() - fee_num;
        if after_fee.is_zero() {
            return Some(zero);
        }
        let q: LevQuote = match quote_for(debt, coll, stable, total, &b, fee_num) {
            Some(x) => x,
            None => return None,
        };
        if q.x0.is_zero() {
            return Some(zero);
        }
        if debt < q.most {
            self.lev_amm_mint(&q, cfg, price)
        } else if debt > q.least {
            self.lev_amm_burn(&q, cfg)
        } else {
            Some(zero)
        }
    }

    /// Decides on a step for given holdings. Returns its fee; `None` while an earlier
    /// decision is pending or where an amount does not exist.
    pub fn lev_amm_step_sync(
        &mut self,
        total0: U256,
        total1: U256,
        price_wad: U256,
        lev_amm_cfg: &LevAmmConfig,
        target_cr_wad: U256,
    ) -> (r: Option<U256>)
        ensures
            lev_step(
                old(self)@,
                total0@,
                total1@,
                price_wad@,
                lev_terms(*lev_amm_cfg),
                target_cr_wad@,
            ) == (match r {
                Some(fee) => Some((final(self)@, fee@)),
                None => None,
            }),
            final(self).tick_spacing == old(self).tick_spacing,
    {
        reveal(lev_step);
        if self.pending_lev_amm_mode.is_some() {
            return None;
        }
        let zero: U256 = U256::ZERO();
        let vol0: bool = self.pool_config.is_volatile_token0();
        let total: U256 = value_in_stable(vol0, total0, total1, price_wad);
        if total.is_zero() || target_cr_wad <= wad() {
            return Some(zero);
        }
        let (volatile, stable) = roles(vol0, total0, total1);
        if self.lev_amm_notional.is_zero() {
            let value: U256 = volatile_to_stable(vol0, volatile, price_wad);
            self.lev_amm_start(total, value, target_cr_wad);
            return Some(zero);
        }
        let unit: U256 = mul_div(total, wad(), self.lev_amm_notional);
        let coll: U256 = mul_div(unit, self.lev_amm_collateral, wad());
        if self.lev_amm_collateral.is_zero() || unit.is_zero() || coll.is_zero() {
            return Some(zero);
        }
        self.lev_amm_trade(coll, stable, total, price_wad, lev_amm_cfg, target_cr_wad)
    }

    /// Mints the part of two amounts that falls to a range.
    fn lev_amm_mint_slot(&mut self, pool: &mut CorePool, slot: Slot, amount0: U256, amount1: U256, total_liq: U256) -> (ok: bool)
        requires
            old(self).wf(),
            old(pool).wf(),
            total_liq@ != 0,
        ensures
            final(pool).wf(),
            pool_valid(old(pool)@) ==> pool_valid(final(pool)@),
            final(self).tick_spacing == old(self).tick_spacing,
            lev_minted_slot(old(self)@, old(pool)@, slot, amount0@, amount1@, total_liq@) == stage(
                ok,
                final(self)@,
                final(pool)@,
            ),
    {
        reveal(lev_minted_slot);
        let p: VaultPosition = match self.range(slot) {
            Some(x) => x,
            None => return true,
        };
        if p.liquidity.is_zero() {
            return true;
        }
        let part: U256 = mul_div(p.liquidity, fee_den(), total_liq);
        let f0: U256 = mul_div(amount0, part, fee_den());
        let f1: U256 = mul_div(amount1, part, fee_den());
        if f0.is_zero() && f1.is_zero() {
            return true;
        }
        let raw: U256 = match max_liquidity_for_amounts(
            pool.sqrt_price_x96(),
            p.tick_lower,
            p.tick_upper,
            f0,
            f1,
        ) {
            Some(x) => x,
            None => return false,
        };
        let l: U256 = match cap_liquidity(
            pool.sqrt_price_x96(),
            p.tick_lower,
            p.tick_upper,
            raw,
            self.idle0,
            self.idle1,
        ) {
            Some(x) => x,
            None => return false,
        };
        if l.is_zero() {
            return true;
        }
        if self.mint_range(pool, p.tick_lower, p.tick_upper, l).is_none() {
            return false;
        }
        self.set_range(slot, Some(VaultPosition { liquidity: p.liquidity + l, ..p }));
        true
    }

    /// Mints two amounts into the wide and the base range by their liquidity.
    fn lev_amm_mint_direct_to_lp(&mut self, pool: &mut CorePool, amount0: U256, amount1: U256) -> (ok: bool)
        requires
            old(self).wf(),
            old(pool).wf(),
        ensures
            final(pool).wf(),
            pool_valid(old(pool)@) ==> pool_valid(final(pool)@),
            final(self).tick_spacing == old(self).tick_spacing,
            lev_minted(old(self)@, old(pool)@, amount0@, amount1@) == stage(
                ok,
                final(self)@,
                final(pool)@,
            ),
    {
        reveal(lev_minted);
        if amount0.is_zero() && amount1.is_zero() {
            return true;
        }
        let wide_liq: U256 = self.wide_info().2;
        let base_liq: U256 = self.base_info().2;
        let total_liq: U256 = wide_liq + base_liq;
        self.add_idle(amount0, amount1);
        if total_liq.is_zero() {
            return true;
        }
        self.lev_amm_mint_slot(pool, Slot::Wide, amount0, amount1, total_liq)
            && self.lev_amm_mint_slot(pool, Slot::Base, amount0, amount1, total_liq)
    }

    /// Unwinds ranges for a trade. What comes out leaves the vault.
    fn lev_amm_unwind(&mut self, pool: &mut CorePool, trade: U256, price_wad: U256) -> (ok: bool)
        requires
            old(self).wf(),
            old(pool).wf(),
        ensures
            final(pool).wf(),
            pool_valid(old(pool)@) ==> pool_valid(final(pool)@),
            final(self).tick_spacing == old(self).tick_spacing,
            lev_burned(old(self)@, old(pool)@, trade@, price_wad@) == stage(
                ok,
                final(self)@,
                final(pool)@,
            ),
    {
        reveal(lev_burned);
        let idle0: U256 = self.idle0;
        let idle1: U256 = self.idle1;
        let fees0: U256 = self.accumulated_fees0;
        let fees1: U256 = self.accumulated_fees1;
        let (actual0, actual1) = match self.partial_deleverage(pool, trade, price_wad) {
            Some(x) => x,
            None => return false,
        };
        let out0: U256 = saturating_sub(actual0, self.accumulated_fees0 - fees0);
        let out1: U256 = saturating_sub(actual1, self.accumulated_fees1 - fees1);
        let drop0: U256 = min_u256(out0, saturating_sub(self.idle0, idle0));
        let drop1: U256 = min_u256(out1, saturating_sub(self.idle1, idle1));
        self.take_idle(drop0, drop1);
        true
    }

    /// Carries out what is pending.
    pub fn apply_pending_lev_amm_op(&mut self, pool: &mut CorePool, price_wad: U256) -> (ok: bool)
        requires
            old(self).wf(),
            old(pool).wf(),
        ensures
            final(pool).wf(),
            pool_valid(old(pool)@) ==> pool_valid(final(pool)@),
            final(self).tick_spacing == old(self).tick_spacing,
            lev_applied(old(self)@, old(pool)@, price_wad@) == stage(
                ok,
                final(self)@,
                final(pool)@,
            ),
    {
        reveal(lev_applied);
        let mode: Option<LevAmmOpMode> = self.pending_lev_amm_mode;
        let trade: U256 = self.pending_lev_amm_trade;
        let is_init: bool = self.pending_lev_amm_is_init;
        let amount0: U256 = self.pending_lev_amm_mint_amount0;
        let amount1: U256 = self.pending_lev_amm_mint_amount1;
        self.pending_lev_amm_mode = None;
        self.pending_lev_amm_trade = U256::ZERO();
        self.pending_lev_amm_is_init = false;
        self.pending_lev_amm_mint_amount0 = U256::ZERO();
        self.pending_lev_amm_mint_amount1 = U256::ZERO();
        match mode {
            None => true,
            Some(LevAmmOpMode::Mint) => {
                if is_init {
                    self.add_idle(amount0, amount1);
                    self.try_withdraw_all(pool) && self.try_rebalance_from_idle(pool)
                } else {
                    self.lev_amm_mint_direct_to_lp(pool, amount0, amount1)
                }
            },
            Some(LevAmmOpMode::Burn) => {
                if trade.is_zero() {
                    true
                } else {
                    self.lev_amm_unwind(pool, trade, price_wad)
                }
            },
        }
    }

    /// As `run_lev_amm_step`; `None` where it fails, with vault and pool left partway.
    pub fn try_run_lev_amm_step(&mut self, pool: &mut CorePool, lev_amm_cfg: &LevAmmConfig, target_cr_wad: U256, override_sqrt: Option<U256>) -> (r: Option<(U256, bool)>)
        requires
            old(self).wf(),
            old(pool).wf(),
        ensures
            final(pool).wf(),
            pool_valid(old(pool)@) ==> pool_valid(final(pool)@),
            final(self).tick_spacing == old(self).tick_spacing,
            lev_run(old(self)@, old(pool)@, lev_terms(*lev_amm_cfg), target_cr_wad@, opt(override_sqrt)) == (match r {
                Some(x) => Some((final(self)@, final(pool)@, (x.0@, x.1))),
                None => None,
            }),
    {
        let sqrt: U256 = price_choice(pool, override_sqrt);
        let price_wad: U256 = pool_price(sqrt);
        let (t0, t1) = match self.try_totals(pool, sqrt, false) {
            Some(x) => x,
            None => return None,
        };
        let fee: U256 = match self.lev_amm_step_sync(
            t0,
            t1,
            price_wad,
            lev_amm_cfg,
            target_cr_wad,
        ) {
            Some(x) => x,
            None => return None,
        };
        let fired: bool = self.pending_lev_amm_mode.is_some();
        if !self.apply_pending_lev_amm_op(pool, price_wad) {
            return None;
        }
        Some((fee, fired))
    }

    /// Runs one step of the leverage market maker at a price and carries it out. Returns
    /// its fee and whether it traded.
    pub fn run_lev_amm_step(&mut self, pool: &mut CorePool, lev_amm_cfg: &LevAmmConfig, target_cr_wad: U256, override_sqrt: Option<U256>) -> (r: (U256, bool))
        requires
            old(self).wf(),
            old(pool).wf(),
            lev_run(old(self)@, old(pool)@, lev_terms(*lev_amm_cfg), target_cr_wad@, opt(override_sqrt)) is Some,
        ensures
            final(pool).wf(),
            pool_valid(old(pool)@) ==> pool_valid(final(pool)@),
            final(self).tick_spacing == old(self).tick_spacing,
            lev_run(old(self)@, old(pool)@, lev_terms(*lev_amm_cfg), target_cr_wad@, opt(override_sqrt)) == Some((final(self)@, final(pool)@, (r.0@, r.1))),
    {
        match self.try_run_lev_amm_step(pool, lev_amm_cfg, target_cr_wad, override_sqrt) {
            Some(x) => x,
            None => (U256::ZERO(), false),
        }
    }
}

} // verus!
