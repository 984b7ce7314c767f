//! The model of a vault: what it holds, and what each operation does to it and to
//! the pool. An operation that cannot be carried out has no outcome (`None`).
use crate::arith::{p128, p64, wrap_signed};
use crate::config::VaultParams;
use crate::full_math::floor_mul_div;
use crate::pool_config::PoolConfig;
use crate::pool_model::{burned, minted, pool_collected, PoolView};
use crate::position::fees_earned;
use crate::position_manager::{position_at, position_key};
use crate::tick_manager::growths_inside;
use crate::types::{abs, MAX_TICK, MIN_TICK};
use crate::vault_math::{
    by_role, capped_liquidity, ceil_quotient, larger, max_liquidity, one_wad, price_of,
    range_amounts, sat_sub, smaller, stable_value, to_stable, wadd, wmul, wsub,
};
use vstd::prelude::*;

verus! {

/// A range of the vault: its ticks and its liquidity.
pub ghost struct RangeView {
    pub lower: int,
    pub upper: int,
    pub liquidity: int,
}

/// What the leverage market maker has decided on and not yet carried out.
#[derive(Debug, Clone, Copy, PartialEq, Eq, Structural)]
pub enum LevAmmOpMode {
    Mint,
    Burn,
}

/// One of the three ranges.
#[derive(Debug, Clone, Copy, PartialEq, Eq, Structural)]
pub enum Slot {
    Wide,
    Base,
    Limit,
}

/// A vault by its views.
#[verifier::ext_equal]
pub ghost struct VaultView {
    pub params: VaultParams,
    pub config: PoolConfig,
    pub spacing: int,
    pub wide: Option<RangeView>,
    pub base: Option<RangeView>,
    pub limit: Option<RangeView>,
    pub idle0: int,
    pub idle1: int,
    pub debt: int,
    pub fees0: int,
    pub fees1: int,
    pub last_rebalance: int,
    pub last_debt_rebalance: int,
    pub supply: int,
    pub notional: int,
    pub collateral: int,
    pub insolvent: bool,
    pub revenue: int,
    pub pending: Option<LevAmmOpMode>,
    pub pending_trade: int,
    pub pending_init: bool,
    pub pending0: int,
    pub pending1: int,
}

impl VaultView {
    pub open spec fn vol0(self) -> bool {
        self.config.vol0()
    }

    pub open spec fn range(self, slot: Slot) -> Option<RangeView> {
        match slot {
            Slot::Wide => self.wide,
            Slot::Base => self.base,
            Slot::Limit => self.limit,
        }
    }

    pub open spec fn with_range(self, slot: Slot, r: Option<RangeView>) -> VaultView {
        match slot {
            Slot::Wide => VaultView { wide: r, ..self },
            Slot::Base => VaultView { base: r, ..self },
            Slot::Limit => VaultView { limit: r, ..self },
        }
    }

    pub open spec fn has_idle(self) -> bool {
        self.idle0 != 0 || self.idle1 != 0
    }

    /// With amounts added to what is idle.
    pub open spec fn plus_idle(self, a0: int, a1: int) -> VaultView {
        VaultView { idle0: wadd(self.idle0, a0), idle1: wadd(self.idle1, a1), ..self }
    }

    /// With amounts taken from what is idle.
    pub open spec fn minus_idle(self, a0: int, a1: int) -> VaultView {
        VaultView { idle0: wsub(self.idle0, a0), idle1: wsub(self.idle1, a1), ..self }
    }

    /// With a stable amount added to what is idle.
    pub open spec fn plus_stable(self, a: int) -> VaultView {
        if self.vol0() {
            VaultView { idle1: wadd(self.idle1, a), ..self }
        } else {
            VaultView { idle0: wadd(self.idle0, a), ..self }
        }
    }

    /// With a stable amount taken from what is idle.
    pub open spec fn minus_stable(self, a: int) -> VaultView {
        if self.vol0() {
            VaultView { idle1: wsub(self.idle1, a), ..self }
        } else {
            VaultView { idle0: wsub(self.idle0, a), ..self }
        }
    }

    pub open spec fn stable_idle(self) -> int {
        if self.vol0() {
            self.idle1
        } else {
            self.idle0
        }
    }
}

/// The name under which the vault holds its positions in the pool.
pub open spec fn manager() -> Seq<char> {
    "0xVAULT_MANAGER"@
}

/// The outcome of an operation that succeeded or not.
pub open spec fn stage(ok: bool, v: VaultView, p: PoolView) -> Option<(VaultView, PoolView)> {
    if ok {
        Some((v, p))
    } else {
        None
    }
}

// ── single ranges ──

/// Liquidity minted in a range and paid from what is idle; also what it took.
#[verifier::opaque]
pub open spec fn minted_range(v: VaultView, p: PoolView, lower: int, upper: int, l: int) -> Option<
    (VaultView, PoolView, int, int),
> {
    match minted(p, manager(), lower, upper, wrap_signed(l)) {
        Some((q, a0, a1)) => Some(
            (
                VaultView {
                    idle0: sat_sub(v.idle0, abs(a0)),
                    idle1: sat_sub(v.idle1, abs(a1)),
                    ..v
                },
                q,
                abs(a0),
                abs(a1),
            ),
        ),
        None => None,
    }
}

/// One unit of each token that a burn gave is added to what is idle: the pool
/// rounds against the position.
pub open spec fn compensated(v: VaultView, tick: int, lower: int, upper: int, b0: int, b1: int) -> VaultView {
    let one0: int = if b0 > 0 && tick < upper {
        1
    } else {
        0
    };
    let one1: int = if b1 > 0 && tick >= lower {
        1
    } else {
        0
    };
    v.plus_idle(one0, one1)
}

/// Liquidity burned in a range, and all that the position is owed collected; also
/// what the burn gave and what was collected.
#[verifier::opaque]
pub open spec fn burned_range(v: VaultView, p: PoolView, lower: int, upper: int, l: int) -> Option<
    (VaultView, PoolView, (int, int), (int, int)),
> {
    match burned(p, manager(), lower, upper, wrap_signed(l)) {
        Some((q, b0, b1)) => match pool_collected(
            q,
            manager(),
            lower,
            upper,
            p128() - 1,
            p128() - 1,
        ) {
            Some((u, c0, c1)) => Some(
                (
                    compensated(v.plus_idle(c0, c1), u.tick, lower, upper, b0, b1),
                    u,
                    (b0, b1),
                    (c0, c1),
                ),
            ),
            None => None,
        },
        None => None,
    }
}

/// The fees of a range collected.
#[verifier::opaque]
pub open spec fn harvested(v: VaultView, p: PoolView, lower: int, upper: int) -> Option<
    (VaultView, PoolView),
> {
    match burned(p, manager(), lower, upper, 0) {
        Some((q, b0, b1)) => match pool_collected(
            q,
            manager(),
            lower,
            upper,
            p128() - 1,
            p128() - 1,
        ) {
            Some((u, c0, c1)) => Some(
                (
                    VaultView { fees0: wadd(v.fees0, c0), fees1: wadd(v.fees1, c1), ..v }.plus_idle(
                        c0,
                        c1,
                    ),
                    u,
                ),
            ),
            None => None,
        },
        None => None,
    }
}

// ── what the vault holds ──

/// The amounts in a range at a price.
pub open spec fn slot_amounts(r: Option<RangeView>, price: int, up: bool) -> Option<(int, int)> {
    match r {
        Some(x) => if x.liquidity != 0 {
            range_amounts(price, x.lower, x.upper, x.liquidity, up)
        } else {
            Some((0, 0))
        },
        None => Some((0, 0)),
    }
}

pub open spec fn pair_sum(a: Option<(int, int)>, b: Option<(int, int)>) -> Option<(int, int)> {
    match (a, b) {
        (Some(x), Some(y)) => Some((wadd(x.0, y.0), wadd(x.1, y.1))),
        _ => None,
    }
}

/// The amounts in all ranges at a price.
pub open spec fn lp_amounts_at(v: VaultView, price: int, up: bool) -> Option<(int, int)> {
    pair_sum(
        pair_sum(slot_amounts(v.wide, price, up), slot_amounts(v.base, price, up)),
        slot_amounts(v.limit, price, up),
    )
}

/// The fees that a range has earned and not collected.
#[verifier::opaque]
pub open spec fn slot_fees(p: PoolView, r: Option<RangeView>) -> Option<(int, int)> {
    match r {
        Some(x) => {
            let pos = position_at(p.positions, position_key(manager(), x.lower, x.upper));
            if pos.liquidity == 0 {
                Some((pos.owed0, pos.owed1))
            } else if MIN_TICK <= x.lower <= MAX_TICK && MIN_TICK <= x.upper <= MAX_TICK {
                let (g0, g1) = growths_inside(
                    p.ticks,
                    x.lower,
                    x.upper,
                    p.tick,
                    p.growth0,
                    p.growth1,
                );
                Some(
                    (
                        wadd(pos.owed0, fees_earned(g0, pos.last0, pos.liquidity)),
                        wadd(pos.owed1, fees_earned(g1, pos.last1, pos.liquidity)),
                    ),
                )
            } else {
                None
            }
        },
        None => Some((0, 0)),
    }
}

/// The fees that all ranges have earned and not collected.
pub open spec fn fees_of(v: VaultView, p: PoolView) -> Option<(int, int)> {
    pair_sum(pair_sum(slot_fees(p, v.wide), slot_fees(p, v.base)), slot_fees(p, v.limit))
}

/// All that the vault holds, its ranges taken at a price.
pub open spec fn totals_at(v: VaultView, p: PoolView, price: int, up: bool) -> Option<(int, int)> {
    pair_sum(pair_sum(lp_amounts_at(v, price, up), fees_of(v, p)), Some((v.idle0, v.idle1)))
}

pub open spec fn totals(v: VaultView, p: PoolView, up: bool) -> Option<(int, int)> {
    totals_at(v, p, p.price, up)
}

/// The price that is given, or else the pool's.
pub open spec fn price_or(p: PoolView, o: Option<int>) -> int {
    match o {
        Some(x) => x,
        None => p.price,
    }
}

/// The gross value in stable units.
pub open spec fn gross_value(v: VaultView, p: PoolView, o: Option<int>) -> Option<int> {
    match totals(v, p, false) {
        Some((t0, t1)) => Some(stable_value(v.vol0(), t0, t1, price_of(price_or(p, o)))),
        None => None,
    }
}

/// The value in stable units, less the debt.
pub open spec fn net_value(v: VaultView, p: PoolView, o: Option<int>) -> Option<int> {
    match gross_value(v, p, o) {
        Some(g) => Some(sat_sub(g, v.debt)),
        None => None,
    }
}

/// What stands for an unbounded ratio.
pub open spec fn no_bound() -> int {
    0x7fff_ffff_ffff_ffff_ffff_ffff_ffff_ffff
}

/// The stable amount over the value of the volatile one.
pub open spec fn stable_ratio(v: VaultView, p: PoolView, o: Option<int>) -> Option<int> {
    match totals(v, p, true) {
        Some((t0, t1)) => {
            let (volatile, stable) = by_role(v.vol0(), t0, t1);
            let value = to_stable(v.vol0(), volatile, price_of(price_or(p, o)));
            if value == 0 {
                Some(no_bound())
            } else {
                Some(floor_mul_div(stable, one_wad(), value))
            }
        },
        None => None,
    }
}

/// The gross value over the debt.
pub open spec fn collateral_ratio(v: VaultView, p: PoolView, o: Option<int>) -> Option<int> {
    if v.debt == 0 {
        Some(no_bound())
    } else {
        match gross_value(v, p, o) {
            Some(g) => Some(floor_mul_div(g, one_wad(), v.debt)),
            None => None,
        }
    }
}

/// How far a part of a total is from one half, in ten-thousandths, rounded to the
/// nearest. Only the lowest 64 bits are kept.
#[verifier::opaque]
pub open spec fn share_off_half(part: int, total: int) -> int {
    let share = wadd(wmul(part, 10_000), total / 2) / total;
    abs(share - 5_000) % p64()
}

/// How far the stable share is from one half, in ten-thousandths.
pub open spec fn share_deviation(v: VaultView, p: PoolView, o: Option<int>) -> Option<int> {
    match totals(v, p, true) {
        Some((t0, t1)) => {
            let (volatile, stable) = by_role(v.vol0(), t0, t1);
            let price = price_of(price_or(p, o));
            let total = wadd(stable, to_stable(v.vol0(), volatile, price));
            if total == 0 || (!v.vol0() && price == 0) {
                Some(0)
            } else {
                Some(share_off_half(stable, total))
            }
        },
        None => None,
    }
}

// ── placing what is idle ──

/// Capped liquidity minted in a range, which then fills the slot.
pub open spec fn placed(v: VaultView, p: PoolView, slot: Slot, lower: int, upper: int, raw: int) -> Option<
    (VaultView, PoolView),
> {
    match capped_liquidity(p.price, lower, upper, raw, v.idle0, v.idle1) {
        Some(l) => if l == 0 {
            Some((v, p))
        } else {
            match minted_range(v, p, lower, upper, l) {
                Some((w, q, u0, u1)) => Some(
                    (w.with_range(slot, Some(RangeView { lower, upper, liquidity: l })), q),
                ),
                None => None,
            }
        },
        None => None,
    }
}

/// As much liquidity as what is idle gives, placed in a range.
#[verifier::opaque]
pub open spec fn filled(v: VaultView, p: PoolView, slot: Slot, lower: int, upper: int) -> Option<
    (VaultView, PoolView),
> {
    match max_liquidity(p.price, lower, upper, v.idle0, v.idle1) {
        Some(raw) => placed(v, p, slot, lower, upper, raw),
        None => None,
    }
}

/// The range on the side of the price that takes more of what is idle. The
/// side above wins a tie.
pub open spec fn limit_side(v: VaultView, p: PoolView, floor: int, ceil: int) -> Option<
    (int, int, int),
> {
    let t = v.params.limit_threshold as int;
    let bid = if t > 0 {
        max_liquidity(p.price, floor - t, floor, v.idle0, v.idle1)
    } else {
        Some(0)
    };
    let ask = if t > 0 {
        max_liquidity(p.price, ceil, ceil + t, v.idle0, v.idle1)
    } else {
        Some(0)
    };
    match (bid, ask) {
        (Some(b), Some(a)) => if b > a {
            Some((floor - t, floor, b))
        } else {
            Some((ceil, ceil + t, a))
        },
        _ => None,
    }
}

/// What is left idle placed beside the price.
#[verifier::opaque]
pub open spec fn limit_filled(v: VaultView, p: PoolView, floor: int, ceil: int) -> Option<
    (VaultView, PoolView),
> {
    if v.has_idle() {
        match limit_side(v, p, floor, ceil) {
            Some((lower, upper, raw)) => placed(v, p, Slot::Limit, lower, upper, raw),
            None => None,
        }
    } else {
        Some((v, p))
    }
}

/// The usable tick at or below.
pub open spec fn tick_floor(tick: int, spacing: int) -> int {
    tick / spacing * spacing
}

/// What is idle placed around the current tick: in the base range, then in the wide
/// one, then beside the price. Where the wide range is empty, nothing follows it.
#[verifier::opaque]
pub open spec fn rebalanced(v: VaultView, p: PoolView) -> Option<(VaultView, PoolView)> {
    let floor = tick_floor(p.tick, v.spacing);
    let ceil = floor + v.spacing;
    let b = v.params.base_threshold as int;
    let w = v.params.wide_threshold as int;
    let base_lower = larger(floor - b, MIN_TICK as int);
    let base_upper = smaller(ceil + b, MAX_TICK as int);
    let wide_lower = larger(floor - w, MIN_TICK as int);
    let wide_upper = smaller(ceil + w, MAX_TICK as int);
    let first = if base_lower < base_upper && v.has_idle() {
        filled(v, p, Slot::Base, base_lower, base_upper)
    } else {
        Some((v, p))
    };
    match first {
        Some((v1, p1)) => if v.params.wide_range_weight > 0 && v1.has_idle() {
            if wide_lower >= wide_upper {
                Some((v1, p1))
            } else {
                match filled(v1, p1, Slot::Wide, wide_lower, wide_upper) {
                    Some((v2, p2)) => limit_filled(v2, p2, floor, ceil),
                    None => None,
                }
            }
        } else {
            limit_filled(v1, p1, floor, ceil)
        },
        None => None,
    }
}

/// What is idle minted into the range that a slot has.
#[verifier::opaque]
pub open spec fn topped_up(v: VaultView, p: PoolView, slot: Slot) -> Option<(VaultView, PoolView)> {
    match v.range(slot) {
        Some(r) => if v.has_idle() {
            match max_liquidity(p.price, r.lower, r.upper, v.idle0, v.idle1) {
                Some(l) => if l == 0 {
                    Some((v, p))
                } else {
                    match minted_range(v, p, r.lower, r.upper, l) {
                        Some((w, q, u0, u1)) => Some(
                            (
                                w.with_range(
                                    slot,
                                    Some(RangeView { liquidity: wadd(r.liquidity, l), ..r }),
                                ),
                                q,
                            ),
                        ),
                        None => None,
                    }
                },
                None => None,
            }
        } else {
            Some((v, p))
        },
        None => Some((v, p)),
    }
}

/// What is idle minted into the ranges as they stand: base, wide, limit.
pub open spec fn deployed(v: VaultView, p: PoolView) -> Option<(VaultView, PoolView)> {
    match topped_up(v, p, Slot::Base) {
        Some((v1, p1)) => match topped_up(v1, p1, Slot::Wide) {
            Some((v2, p2)) => topped_up(v2, p2, Slot::Limit),
            None => None,
        },
        None => None,
    }
}

/// The first shares: as many as the larger amount, and at least a thousand.
pub open spec fn first_supply(a0: int, a1: int) -> int {
    larger(1000, larger(a0, a1))
}

/// A deposit that is placed at once.
pub open spec fn deposited(v: VaultView, p: PoolView, a0: int, a1: int) -> Option<
    (VaultView, PoolView),
> {
    let supply = if v.supply == 0 {
        first_supply(a0, a1)
    } else {
        v.supply
    };
    rebalanced(VaultView { supply, ..v }.plus_idle(a0, a1), p)
}

// ── deposits in proportion ──

/// What a deposit takes of the amounts offered, in the proportion of the holdings,
/// and the shares for it. Nothing is taken where no share results.
pub open spec fn pro_rata_terms(t0: int, t1: int, supply: int, d0: int, d1: int) -> Option<
    (int, int, int),
> {
    if supply == 0 || (t0 == 0 && t1 == 0) {
        Some((0, 0, 0))
    } else if t0 == 0 {
        Some((0, d1, floor_mul_div(d1, supply, t1)))
    } else if t1 == 0 {
        Some((d0, 0, floor_mul_div(d0, supply, t0)))
    } else {
        let cross = smaller(wmul(d0, t1), wmul(d1, t0));
        if cross == 0 {
            Some((0, 0, 0))
        } else if wmul(t0, t1) == 0 {
            None
        } else {
            Some(
                (
                    ceil_quotient(cross, t1),
                    ceil_quotient(cross, t0),
                    wmul(cross, supply) / wmul(t0, t1),
                ),
            )
        }
    }
}

/// A deposit under way: what of it is not minted yet.
#[verifier::ext_equal]
pub ghost struct Minting {
    pub vault: VaultView,
    pub pool: PoolView,
    pub left0: int,
    pub left1: int,
}

/// The part of a deposit that goes to one range: its share of the new shares, as far
/// as the amounts reach.
#[verifier::opaque]
pub open spec fn minted_share(m: Minting, slot: Slot, shares: int, supply: int) -> Option<Minting> {
    match m.vault.range(slot) {
        Some(r) => if r.liquidity == 0 {
            Some(m)
        } else {
            match max_liquidity(m.pool.price, r.lower, r.upper, m.left0, m.left1) {
                Some(most) => {
                    let l = smaller(floor_mul_div(r.liquidity, shares, supply), most);
                    if l == 0 {
                        Some(m)
                    } else {
                        match minted_range(m.vault, m.pool, r.lower, r.upper, l) {
                            Some((w, q, u0, u1)) => Some(
                                Minting {
                                    vault: w.with_range(
                                        slot,
                                        Some(RangeView { liquidity: wadd(r.liquidity, l), ..r }),
                                    ),
                                    pool: q,
                                    left0: sat_sub(m.left0, u0),
                                    left1: sat_sub(m.left1, u1),
                                },
                            ),
                            None => None,
                        }
                    }
                },
                None => None,
            }
        },
        None => Some(m),
    }
}

pub open spec fn minted_shares(m: Minting, shares: int, supply: int) -> Option<Minting> {
    match minted_share(m, Slot::Wide, shares, supply) {
        Some(m1) => match minted_share(m1, Slot::Base, shares, supply) {
            Some(m2) => minted_share(m2, Slot::Limit, shares, supply),
            None => None,
        },
        None => None,
    }
}

/// A deposit in the proportion of the holdings; also what it took.
#[verifier::opaque]
pub open spec fn pro_rata_deposited(v: VaultView, p: PoolView, d0: int, d1: int) -> Option<
    (VaultView, PoolView, int, int),
> {
    match totals(v, p, true) {
        Some((t0, t1)) => match pro_rata_terms(t0, t1, v.supply, d0, d1) {
            Some((a0, a1, shares)) => if shares == 0 {
                Some((v, p, 0, 0))
            } else {
                let m = Minting { vault: v.plus_idle(a0, a1), pool: p, left0: a0, left1: a1 };
                match minted_shares(m, shares, v.supply) {
                    Some(n) => Some(
                        (
                            VaultView { supply: wadd(v.supply, shares), ..n.vault },
                            n.pool,
                            a0,
                            a1,
                        ),
                    ),
                    None => None,
                }
            },
            None => None,
        },
        None => None,
    }
}

// ── withdrawals ──

/// A range given up as a whole.
#[verifier::opaque]
pub open spec fn closed_range(v: VaultView, p: PoolView, r: Option<RangeView>) -> Option<
    (VaultView, PoolView),
> {
    match r {
        Some(x) => if x.liquidity != 0 {
            match burned_range(v, p, x.lower, x.upper, x.liquidity) {
                Some((w, q, b, c)) => Some((w, q)),
                None => None,
            }
        } else {
            Some((v, p))
        },
        None => Some((v, p)),
    }
}

/// All ranges given up.
pub open spec fn emptied(v: VaultView, p: PoolView) -> Option<(VaultView, PoolView)> {
    let bare = VaultView { wide: None, base: None, limit: None, ..v };
    match closed_range(bare, p, v.wide) {
        Some((v1, p1)) => match closed_range(v1, p1, v.base) {
            Some((v2, p2)) => closed_range(v2, p2, v.limit),
            None => None,
        },
        None => None,
    }
}

/// The fees of a slot's range collected, if it has one.
pub open spec fn slot_harvested(v: VaultView, p: PoolView, slot: Slot) -> Option<
    (VaultView, PoolView),
> {
    match v.range(slot) {
        Some(r) => harvested(v, p, r.lower, r.upper),
        None => Some((v, p)),
    }
}

/// All fees collected.
pub open spec fn all_harvested(v: VaultView, p: PoolView) -> Option<(VaultView, PoolView)> {
    match slot_harvested(v, p, Slot::Wide) {
        Some((v1, p1)) => match slot_harvested(v1, p1, Slot::Base) {
            Some((v2, p2)) => slot_harvested(v2, p2, Slot::Limit),
            None => None,
        },
        None => None,
    }
}

/// A withdrawal under way: what is still to be had, and what has come out.
#[verifier::ext_equal]
pub ghost struct Unwinding {
    pub vault: VaultView,
    pub pool: PoolView,
    pub left: int,
    pub out0: int,
    pub out1: int,
}

/// One range unwound until the value still wanted has come out.
#[verifier::opaque]
pub open spec fn unwound_slot(u: Unwinding, slot: Slot, price: int) -> Option<Unwinding> {
    match u.vault.range(slot) {
        Some(r) => if u.left == 0 || r.liquidity == 0 {
            Some(u)
        } else {
            match range_amounts(u.pool.price, r.lower, r.upper, r.liquidity, false) {
                Some((a0, a1)) => {
                    let value = stable_value(u.vault.vol0(), a0, a1, price);
                    let l = if u.left >= value {
                        r.liquidity
                    } else {
                        floor_mul_div(r.liquidity, u.left, value)
                    };
                    if value == 0 || l == 0 {
                        Some(u)
                    } else {
                        match burned_range(u.vault, u.pool, r.lower, r.upper, l) {
                            Some((w, q, b, c)) => Some(
                                Unwinding {
                                    vault: w.with_range(
                                        slot,
                                        Some(RangeView { liquidity: wsub(r.liquidity, l), ..r }),
                                    ),
                                    pool: q,
                                    left: sat_sub(
                                        u.left,
                                        stable_value(u.vault.vol0(), c.0, c.1, price),
                                    ),
                                    out0: wadd(u.out0, c.0),
                                    out1: wadd(u.out1, c.1),
                                },
                            ),
                            None => None,
                        }
                    }
                },
                None => None,
            }
        },
        None => Some(u),
    }
}

/// Ranges unwound for a value: the limit range first, the wide one last.
pub open spec fn unwound(v: VaultView, p: PoolView, target: int, price: int) -> Option<Unwinding> {
    let u = Unwinding { vault: v, pool: p, left: target, out0: 0, out1: 0 };
    match unwound_slot(u, Slot::Limit, price) {
        Some(u1) => match unwound_slot(u1, Slot::Base, price) {
            Some(u2) => unwound_slot(u2, Slot::Wide, price),
            None => None,
        },
        None => None,
    }
}

/// A share of one range burned; also what has come out for the shares.
#[verifier::opaque]
pub open spec fn share_burned(
    v: VaultView,
    p: PoolView,
    slot: Slot,
    shares: int,
    supply: int,
    out: (int, int),
) -> Option<(VaultView, PoolView, (int, int))> {
    match v.range(slot) {
        Some(r) => {
            let l = floor_mul_div(r.liquidity, shares, supply);
            if r.liquidity == 0 || l == 0 {
                Some((v, p, out))
            } else {
                match burned_range(v, p, r.lower, r.upper, l) {
                    Some((w, q, b, c)) => {
                        let b0 = larger(b.0, 0);
                        let b1 = larger(b.1, 0);
                        let f0 = floor_mul_div(sat_sub(c.0, b0), shares, supply);
                        let f1 = floor_mul_div(sat_sub(c.1, b1), shares, supply);
                        Some(
                            (
                                w.with_range(
                                    slot,
                                    Some(RangeView { liquidity: wsub(r.liquidity, l), ..r }),
                                ),
                                q,
                                (wadd(wadd(out.0, b0), f0), wadd(wadd(out.1, b1), f1)),
                            ),
                        )
                    },
                    None => None,
                }
            }
        },
        None => Some((v, p, out)),
    }
}

/// Shares redeemed; also what they were worth of each token.
pub open spec fn redeemed(v: VaultView, p: PoolView, shares: int) -> Option<
    (VaultView, PoolView, (int, int)),
> {
    if shares == 0 || v.supply == 0 {
        Some((v, p, (0, 0)))
    } else {
        let s = v.supply;
        let w = VaultView { supply: wsub(s, shares), ..v };
        let out = (floor_mul_div(v.idle0, shares, s), floor_mul_div(v.idle1, shares, s));
        match share_burned(w, p, Slot::Wide, shares, s, out) {
            Some((v1, p1, o1)) => match share_burned(v1, p1, Slot::Base, shares, s, o1) {
                Some((v2, p2, o2)) => match share_burned(v2, p2, Slot::Limit, shares, s, o2) {
                    Some((v3, p3, o3)) => Some((v3.minus_idle(o3.0, o3.1), p3, o3)),
                    None => None,
                },
                None => None,
            },
            None => None,
        }
    }
}

} // verus!
