//! How the ranges of a vault follow the price, and how wide they are.
use crate::config::{SlowRecenterConfig, VaultParams};
use crate::core_pool::CorePool;
use crate::pool_model::{pool_valid, PoolView};
use crate::types::{abs, trunc_div, MAX_TICK, U256};
use crate::vault::{floor_tick, Vault, VaultPosition};
use crate::vault_liquidity::{no_less, no_more};
use crate::vault_math::{
    by_role, larger, max_liquidity, max_liquidity_for_amounts, opt_pair, pool_price, price_of,
    roles, smaller, to_stable, volatile_to_stable, wadd, wsub,
};
use crate::vault_model::{
    burned_range, deployed, emptied, rebalanced, stage, tick_floor, totals, RangeView, Slot,
    VaultView,
};
use vstd::prelude::*;

verus! {

/// How far the stable share is from one half, against the thresholds of a
/// configuration: below the least, at or above the one for a full recentering, and
/// the number of tick spacings to move otherwise.
#[derive(Debug, Clone, Copy, PartialEq, Eq)]
pub struct Deviation {
    pub below_min: bool,
    pub emergency: bool,
    pub shift_speed: i32,
}

/// The stable amount held and the value of the volatile one.
pub open spec fn two_sides(v: VaultView, p: PoolView) -> Option<(int, int)> {
    match totals(v, p, false) {
        Some((t0, t1)) => {
            let (volatile, stable) = by_role(v.vol0(), t0, t1);
            Some((stable, to_stable(v.vol0(), volatile, price_of(p.price))))
        },
        None => None,
    }
}

/// The middle of the base range, or the current tick.
pub open spec fn base_middle(v: VaultView, p: PoolView) -> int {
    match v.base {
        Some(r) => trunc_div(r.lower + r.upper, 2),
        None => p.tick,
    }
}

/// How many tick spacings the current tick is off the middle, rounded to the nearest.
pub open spec fn spacings_off(v: VaultView, p: PoolView) -> int {
    (2 * abs(p.tick - base_middle(v, p)) + v.spacing) / (2 * v.spacing)
}

/// A tick kept within the ticks of a pool.
pub open spec fn bound_tick(t: int) -> int {
    smaller(larger(t, -MAX_TICK as int), MAX_TICK as int)
}

/// A range given up, its fees booked, and the slot set to new ticks.
#[verifier::opaque]
pub open spec fn moved_range(v: VaultView, p: PoolView, slot: Slot, r: RangeView, lower: int, upper: int) -> Option<
    (VaultView, PoolView),
> {
    match burned_range(v, p, r.lower, r.upper, r.liquidity) {
        Some((w, q, b, c)) => Some(
            (
                VaultView {
                    fees0: wadd(w.fees0, wsub(c.0, abs(b.0))),
                    fees1: wadd(w.fees1, wsub(c.1, abs(b.1))),
                    ..w
                }.with_range(slot, Some(RangeView { lower, upper, liquidity: 0 })),
                q,
            ),
        ),
        None => None,
    }
}

/// A range shifted by some ticks. One that holds the current tick may be left alone.
#[verifier::opaque]
pub open spec fn shifted(v: VaultView, p: PoolView, slot: Slot, shift: int, only_outside: bool) -> Option<
    (VaultView, PoolView),
> {
    match v.range(slot) {
        Some(r) => {
            let lower = bound_tick(r.lower + shift);
            let upper = bound_tick(r.upper + shift);
            if r.liquidity == 0 || (only_outside && r.lower <= p.tick < r.upper) || (lower
                == r.lower && upper == r.upper) {
                Some((v, p))
            } else {
                moved_range(v, p, slot, r, lower, upper)
            }
        },
        None => Some((v, p)),
    }
}

/// All ranges shifted.
pub open spec fn all_shifted(v: VaultView, p: PoolView, shift: int, only_outside: bool) -> Option<
    (VaultView, PoolView),
> {
    match shifted(v, p, Slot::Wide, shift, only_outside) {
        Some((v1, p1)) => match shifted(v1, p1, Slot::Base, shift, only_outside) {
            Some((v2, p2)) => shifted(v2, p2, Slot::Limit, shift, only_outside),
            None => None,
        },
        None => None,
    }
}

/// The side of the price for the limit range: the one that takes more of what is idle,
/// among those that are not empty. The side below wins a tie.
#[verifier::opaque]
pub open spec fn limit_target(v: VaultView, p: PoolView) -> Option<Option<(int, int)>> {
    let floor = tick_floor(p.tick, v.spacing);
    let ceil = floor + v.spacing;
    let t = v.params.limit_threshold as int;
    let bid = (bound_tick(floor - t), bound_tick(floor));
    let ask = (bound_tick(ceil), bound_tick(ceil + t));
    let bid_ok = bid.1 > bid.0;
    let ask_ok = ask.1 > ask.0;
    let bid_liquidity = if bid_ok {
        max_liquidity(p.price, bid.0, bid.1, v.idle0, v.idle1)
    } else {
        Some(0)
    };
    let ask_liquidity = if ask_ok {
        max_liquidity(p.price, ask.0, ask.1, v.idle0, v.idle1)
    } else {
        Some(0)
    };
    if !bid_ok && !ask_ok {
        Some(None)
    } else {
        match (bid_liquidity, ask_liquidity) {
            (Some(b), Some(a)) => if ask_ok && (!bid_ok || a > b) {
                Some(Some(ask))
            } else {
                Some(Some(bid))
            },
            _ => None,
        }
    }
}

/// The limit range moved beside the current tick.
#[verifier::opaque]
pub open spec fn limit_moved(v: VaultView, p: PoolView) -> Option<(VaultView, PoolView)> {
    match limit_target(v, p) {
        Some(Some((lower, upper))) => match v.limit {
            Some(r) => if lower == r.lower && upper == r.upper {
                Some((v, p))
            } else if r.liquidity != 0 {
                moved_range(v, p, Slot::Limit, r, lower, upper)
            } else {
                Some((v.with_range(Slot::Limit, Some(RangeView { lower, upper, liquidity: 0 })), p))
            },
            None => Some((v, p)),
        },
        Some(None) => Some((v, p)),
        None => None,
    }
}

/// The number of ticks of a move of some spacings towards the current tick.
pub open spec fn shift_ticks(v: VaultView, p: PoolView, steps: int) -> int {
    if p.tick > base_middle(v, p) {
        steps * v.spacing
    } else {
        -(steps * v.spacing)
    }
}

/// The ranges moved some spacings towards the current tick, and what is idle deployed.
#[verifier::opaque]
pub open spec fn stepped(v: VaultView, p: PoolView, steps: int, only_outside: bool, move_limit: bool) -> Option<
    (VaultView, PoolView),
> {
    match all_shifted(v, p, shift_ticks(v, p, steps), only_outside) {
        Some((v1, p1)) => {
            let next = if move_limit {
                limit_moved(v1, p1)
            } else {
                Some((v1, p1))
            };
            match next {
                Some((v2, p2)) => deployed(v2, p2),
                None => None,
            }
        },
        None => None,
    }
}

/// One step of following the price; also the number of spacings moved.
pub open spec fn recentered(
    v: VaultView,
    p: PoolView,
    only_outside: bool,
    move_limit: bool,
    d: Deviation,
) -> Option<(VaultView, PoolView, int)> {
    let off = spacings_off(v, p);
    let steps = smaller(off, d.shift_speed as int);
    match two_sides(v, p) {
        Some((stable, volatile)) => if (stable == 0 && volatile == 0) || (d.below_min && off < 1) {
            Some((v, p, 0))
        } else if d.emergency {
            match emptied(v, p) {
                Some((w, q)) => match rebalanced(w, q) {
                    Some((x, u)) => Some((x, u, off)),
                    None => None,
                },
                None => None,
            }
        } else if steps < 1 {
            Some((v, p, 0))
        } else {
            match stepped(v, p, steps, only_outside, move_limit) {
                Some((w, q)) => Some((w, q, steps)),
                None => None,
            }
        },
        None => None,
    }
}

fn bounded(t: i64) -> (r: i32)
    ensures
        r == bound_tick(t as int),
        -MAX_TICK <= r <= MAX_TICK,
{
    no_more(no_less(t, -(MAX_TICK as i64)), MAX_TICK as i64) as i32
}

impl Vault {
    /// The stable amount held and the value of the volatile one; `None` where an amount
    /// does not exist.
    pub fn sides(&self, pool: &CorePool) -> (r: Option<(U256, U256)>)
        requires
            pool.wf(),
        ensures
            opt_pair(r) == two_sides(self@, pool@),
    {
        let vol0: bool = self.pool_config.is_volatile_token0();
        match self.try_totals(pool, pool.sqrt_price_x96(), false) {
            Some((t0, t1)) => {
                let (volatile, stable) = roles(vol0, t0, t1);
                let price: U256 = pool_price(pool.sqrt_price_x96());
                Some((stable, volatile_to_stable(vol0, volatile, price)))
            },
            None => None,
        }
    }

    fn middle_of_base(&self, pool: &CorePool) -> (r: i64)
        ensures
            r == base_middle(self@, pool@),
            -0x1_0000_0000 < r < 0x1_0000_0000,
    {
        match self.base {
            Some(p) => {
                let sum: i64 = p.tick_lower as i64 + p.tick_upper as i64;
                if sum >= 0 {
                    sum / 2
                } else {
                    -((-sum) / 2)
                }
            },
            None => pool.tick_current() as i64,
        }
    }

    fn offset_in_spacings(&self, pool: &CorePool) -> (r: i64)
        requires
            self.wf(),
        ensures
            r == spacings_off(self@, pool@),
            0 <= r < 0x4_0000_0000,
    {
        let mid: i64 = self.middle_of_base(pool);
        let tick: i64 = pool.tick_current() as i64;
        let off: i64 = if tick >= mid {
            tick - mid
        } else {
            mid - tick
        };
        let s: i64 = self.tick_spacing as i64;
        let n: i64 = 2 * off + s;
        proof {
            let q = n as int / (2 * s as int);
            crate::arith::div_facts(n as int, 2 * s as int);
            assert(0 <= q <= n) by (nonlinear_arith)
                requires
                    n == q * (2 * s) + n as int % (2 * s as int),
                    0 <= n as int % (2 * s as int) < 2 * s,
                    s > 0,
                    n >= 0,
            ;
            assert(q < 0x4_0000_0000) by (nonlinear_arith)
                requires
                    n == q * (2 * s) + n as int % (2 * s as int),
                    0 <= n as int % (2 * s as int) < 2 * s,
                    0 < s,
                    n <= 2 * 0x1_8000_0000 + s,
                    q >= 0,
            ;
        }
        n / (2 * s)
    }

    /// Gives up a range, books its fees and sets the slot to new ticks.
    fn move_range(&mut self, pool: &mut CorePool, slot: Slot, from: VaultPosition, lower: i32, upper: i32) -> (ok: bool)
        requires
            old(self).wf(),
            old(pool).wf(),
        ensures
            final(pool).wf(),
            pool_valid(old(pool)@) ==> pool_valid(final(pool)@),
            final(self).tick_spacing == old(self).tick_spacing,
            moved_range(old(self)@, old(pool)@, slot, from@, lower as int, upper as int) == stage(
                ok,
                final(self)@,
                final(pool)@,
            ),
    {
        reveal(moved_range);
        let ((b0, b1), (c0, c1)) = match self.burn_range(
            pool,
            from.tick_lower,
            from.tick_upper,
            from.liquidity,
        ) {
            Some(x) => x,
            None => return false,
        };
        let fees0: U256 = c0 - b0.abs();
        let fees1: U256 = c1 - b1.abs();
        self.accumulated_fees0 = self.accumulated_fees0 + fees0;
        self.accumulated_fees1 = self.accumulated_fees1 + fees1;
        self.set_range(
            slot,
            Some(VaultPosition { tick_lower: lower, tick_upper: upper, liquidity: U256::ZERO() }),
        );
        true
    }

    /// Shifts a range.
    fn shift_range(&mut self, pool: &mut CorePool, slot: Slot, shift: i64, only_outside: bool) -> (ok: bool)
        requires
            old(self).wf(),
            old(pool).wf(),
            -0x4000_0000_0000_0000 < shift < 0x4000_0000_0000_0000,
        ensures
            final(pool).wf(),
            pool_valid(old(pool)@) ==> pool_valid(final(pool)@),
            final(self).tick_spacing == old(self).tick_spacing,
            shifted(old(self)@, old(pool)@, slot, shift as int, only_outside) == stage(
                ok,
                final(self)@,
                final(pool)@,
            ),
    {
        reveal(shifted);
        let p: VaultPosition = match self.range(slot) {
            Some(x) => x,
            None => return true,
        };
        let tick: i32 = pool.tick_current();
        if p.liquidity.is_zero() || (only_outside && p.tick_lower <= tick && tick < p.tick_upper) {
            return true;
        }
        let lower: i32 = bounded(p.tick_lower as i64 + shift);
        let upper: i32 = bounded(p.tick_upper as i64 + shift);
        if lower == p.tick_lower && upper == p.tick_upper {
            return true;
        }
        self.move_range(pool, slot, p, lower, upper)
    }

    /// The ticks to move the limit range to.
    fn target_of_limit(&self, pool: &CorePool) -> (r: Option<Option<(i32, i32)>>)
        requires
            self.wf(),
        ensures
            limit_target(self@, pool@) == (match r {
                Some(Some(x)) => Some(Some((x.0 as int, x.1 as int))),
                Some(None) => Some(None),
                None => None,
            }),
    {
        reveal(limit_target);
        let floor: i64 = floor_tick(pool.tick_current(), self.tick_spacing);
        let ceil: i64 = floor + self.tick_spacing as i64;
        let t: i64 = self.params.limit_threshold as i64;
        let bid: (i32, i32) = (bounded(floor - t), bounded(floor));
        let ask: (i32, i32) = (bounded(ceil), bounded(ceil + t));
        let bid_ok: bool = bid.1 > bid.0;
        let ask_ok: bool = ask.1 > ask.0;
        if !bid_ok && !ask_ok {
            return Some(None);
        }
        let sqrt_price: U256 = pool.sqrt_price_x96();
        let mut b: U256 = U256::ZERO();
        let mut a: U256 = U256::ZERO();
        if bid_ok {
            b = match max_liquidity_for_amounts(sqrt_price, bid.0, bid.1, self.idle0, self.idle1) {
                Some(x) => x,
                None => return None,
            };
        }
        if ask_ok {
            a = match max_liquidity_for_amounts(sqrt_price, ask.0, ask.1, self.idle0, self.idle1) {
                Some(x) => x,
                None => return None,
            };
        }
        if ask_ok && (!bid_ok || a > b) {
            Some(Some(ask))
        } else {
            Some(Some(bid))
        }
    }

    /// Moves the limit range beside the current tick.
    fn move_limit(&mut self, pool: &mut CorePool) -> (ok: bool)
        requires
            old(self).wf(),
            old(pool).wf(),
        ensures
            final(pool).wf(),
            pool_valid(old(pool)@) ==> pool_valid(final(pool)@),
            final(self).tick_spacing == old(self).tick_spacing,
            limit_moved(old(self)@, old(pool)@) == stage(
                ok,
                final(self)@,
                final(pool)@,
            ),
    {
        reveal(limit_moved);
        let (lower, upper) = match self.target_of_limit(pool) {
            Some(Some(x)) => x,
            Some(None) => return true,
            None => return false,
        };
        let p: VaultPosition = match self.limit {
            Some(x) => x,
            None => return true,
        };
        if lower == p.tick_lower && upper == p.tick_upper {
            return true;
        }
        if !p.liquidity.is_zero() {
            return self.move_range(pool, Slot::Limit, p, lower, upper);
        }
        self.set_range(
            Slot::Limit,
            Some(VaultPosition { tick_lower: lower, tick_upper: upper, liquidity: U256::ZERO() }),
        );
        true
    }

    /// Moves the ranges towards the current tick and deploys what is idle.
    fn step_towards(&mut self, pool: &mut CorePool, steps: i64, only_outside: bool, move_limit: bool) -> (ok: bool)
        requires
            old(self).wf(),
            old(pool).wf(),
            0 <= steps < 0x8000_0000,
        ensures
            final(pool).wf(),
            pool_valid(old(pool)@) ==> pool_valid(final(pool)@),
            final(self).tick_spacing == old(self).tick_spacing,
            stepped(old(self)@, old(pool)@, steps as int, only_outside, move_limit) == stage(
                ok,
                final(self)@,
                final(pool)@,
            ),
    {
        reveal(stepped);
        proof {
            let s = self.tick_spacing as int;
            assert(0 <= steps * s < 0x8000_0000 * 0x8000_0000) by (nonlinear_arith)
                requires
                    0 <= steps < 0x8000_0000,
                    0 < s < 0x8000_0000,
            ;
        }
        let distance: i64 = steps * self.tick_spacing as i64;
        let shift: i64 = if pool.tick_current() as i64 > self.middle_of_base(pool) {
            distance
        } else {
            -distance
        };
        let ok: bool = self.shift_range(pool, Slot::Wide, shift, only_outside) && self.shift_range(
            pool,
            Slot::Base,
            shift,
            only_outside,
        ) && self.shift_range(pool, Slot::Limit, shift, only_outside);
        if !ok {
            return false;
        }
        if move_limit {
            if !self.move_limit(pool) {
                return false;
            }
        }
        self.try_deploy_idle_to_lp(pool)
    }

    /// As `slow_recenter`; `None` where it fails, with vault and pool left partway.
    pub fn try_slow_recenter(&mut self, pool: &mut CorePool, cfg: &SlowRecenterConfig, deviation: Deviation) -> (r: Option<i64>)
        requires
            old(self).wf(),
            old(pool).wf(),
        ensures
            final(pool).wf(),
            pool_valid(old(pool)@) ==> pool_valid(final(pool)@),
            final(self).tick_spacing == old(self).tick_spacing,
            recentered(old(self)@, old(pool)@, cfg.only_shift_oor, cfg.redeploy_limit_at_current_tick, deviation) == (match r {
                Some(x) => Some((final(self)@, final(pool)@, x as int)),
                None => None,
            }),
    {
        let (stable, volatile) = match self.sides(pool) {
            Some(x) => x,
            None => return None,
        };
        let off: i64 = self.offset_in_spacings(pool);
        if (stable.is_zero() && volatile.is_zero()) || (deviation.below_min && off < 1) {
            return Some(0);
        }
        if deviation.emergency {
            if self.try_withdraw_all(pool) && self.try_rebalance_from_idle(pool) {
                return Some(off);
            }
            return None;
        }
        let steps: i64 = no_more(off, deviation.shift_speed as i64);
        if steps < 1 {
            return Some(0);
        }
        if self.step_towards(
            pool,
            steps,
            cfg.only_shift_oor,
            cfg.redeploy_limit_at_current_tick,
        ) {
            Some(steps)
        } else {
            None
        }
    }

    /// Moves the ranges one step towards the current tick, or recenters them at once,
    /// depending on how uneven the two sides are. Returns the number of spacings moved.
    pub fn slow_recenter(&mut self, pool: &mut CorePool, cfg: &SlowRecenterConfig, deviation: Deviation) -> (r: i64)
        requires
            old(self).wf(),
            old(pool).wf(),
            recentered(old(self)@, old(pool)@, cfg.only_shift_oor, cfg.redeploy_limit_at_current_tick, deviation) is Some,
        ensures
            final(pool).wf(),
            pool_valid(old(pool)@) ==> pool_valid(final(pool)@),
            final(self).tick_spacing == old(self).tick_spacing,
            recentered(old(self)@, old(pool)@, cfg.only_shift_oor, cfg.redeploy_limit_at_current_tick, deviation) == Some((final(self)@, final(pool)@, r as int)),
    {
        match self.try_slow_recenter(pool, cfg, deviation) {
            Some(x) => x,
            None => 0,
        }
    }

    /// Sets the widths of the base and the limit range, which are at least two spacings
    /// and one spacing.
    pub fn set_dynamic_thresholds(&mut self, new_base: i32, new_limit: i32)
        requires
            old(self).wf(),
            2 * old(self).tick_spacing <= i32::MAX,
        ensures
            final(self).tick_spacing == old(self).tick_spacing,
            final(self)@ == (VaultView {
                params: (VaultParams {
                    base_threshold: larger(new_base as int, 2 * old(self)@.spacing) as i32,
                    limit_threshold: larger(new_limit as int, old(self)@.spacing) as i32,
                    ..old(self)@.params
                }),
                ..old(self)@
            }),
    {
        let two: i32 = self.tick_spacing * 2;
        self.params.base_threshold = if new_base >= two {
            new_base
        } else {
            two
        };
        self.params.limit_threshold = if new_limit >= self.tick_spacing {
            new_limit
        } else {
            self.tick_spacing
        };
    }
}

} // verus!
