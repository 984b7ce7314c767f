//! The model of the leverage market maker: it quotes the vault's holdings against its
//! debt on a curve, and an arbitrageur trades on it where that pays.
use crate::full_math::{ceil_mul_div, checked_mul_div, floor_mul_div};
use crate::pool_model::PoolView;
use crate::vault_math::{
    acquire_cost, acquire_cost_unit, by_role, capped_liquidity, curve_collateral,
    curve_collateral_at, curve_debt, curve_ratio, curve_x0, fee_scale, max_liquidity, one_wad,
    price_of, sat_sub, smaller, stable_value, to_stable, to_volatile, unwind_proceeds,
    unwind_proceeds_unit, value_split, wadd, wmul, wsub,
};
use crate::vault_model::{
    emptied, minted_range, price_or, rebalanced, totals_at, unwound, LevAmmOpMode, RangeView, Slot,
    VaultView,
};
use vstd::prelude::*;

verus! {

/// The fee and the largest trade of a step, both in millionths.
pub ghost struct LevTerms {
    pub fee: int,
    pub cap: Option<int>,
}

/// Where the market maker stands: collateral and debt, the stable holdings and the
/// value of all holdings, the curve, the prices at which it sells and buys, and the
/// debts that it stays between.
pub ghost struct Quote {
    pub coll: int,
    pub stable: int,
    pub total: int,
    pub ratio: int,
    pub x0: int,
    pub sell: int,
    pub buy: int,
    pub least: int,
    pub most: int,
}

/// The first step: debt for the volatile holdings at the target ratio.
#[verifier::opaque]
pub open spec fn lev_started(v: VaultView, total: int, volatile_value: int, tc: int) -> VaultView {
    let amount = floor_mul_div(volatile_value, tc - one_wad(), one_wad());
    if amount == 0 {
        v
    } else {
        VaultView {
            debt: wadd(v.debt, amount),
            notional: wadd(total, amount),
            collateral: wadd(total, amount),
            pending: Some(LevAmmOpMode::Mint),
            pending_trade: amount,
            pending_init: true,
            ..v
        }.plus_stable(amount)
    }
}

/// The trade wanted, or as much of it as one step allows.
pub open spec fn capped_trade(coll: int, wanted: int, cap: Option<int>) -> int {
    match cap {
        Some(m) => smaller(wanted, wmul(coll, m) / fee_scale()),
        None => wanted,
    }
}

/// The collateral value to move to: where the price on the curve is the quoted one,
/// but not beyond that of the outermost debt.
pub open spec fn mint_goal(q: Quote) -> Option<int> {
    match curve_collateral_at(q.ratio, q.x0, q.sell, true) {
        Some(goal) => {
            let last = curve_collateral(q.ratio, q.x0, q.most);
            if last != 0 && (goal == 0 || goal > last) {
                Some(last)
            } else {
                Some(goal)
            }
        },
        None => None,
    }
}

/// As `mint_goal`, for the other direction.
pub open spec fn burn_goal(q: Quote) -> Option<int> {
    match curve_collateral_at(q.ratio, q.x0, q.buy, false) {
        Some(goal) => {
            let last = curve_collateral(q.ratio, q.x0, q.least);
            if last != 0 && (goal == 0 || goal < last) {
                Some(last)
            } else {
                Some(goal)
            }
        },
        None => None,
    }
}

/// Debt added, where the trade pays; also the fee.
#[verifier::opaque]
pub open spec fn lev_mint(v: VaultView, q: Quote, t: LevTerms, price: int) -> Option<
    (VaultView, int),
> {
    match mint_goal(q) {
        Some(goal) => {
            let trade = capped_trade(q.coll, goal - q.coll, t.cap);
            if goal <= q.coll || trade == 0 {
                Some((v, 0))
            } else {
                match curve_debt(q.ratio, q.x0, wadd(q.coll, trade)) {
                    Some(debt) => if debt <= v.debt {
                        Some((v, 0))
                    } else {
                        let principal = debt - v.debt;
                        let fee = floor_mul_div(principal, t.fee, fee_scale());
                        match acquire_cost(trade, q.stable, q.total, t.fee) {
                            Some(cost) => if sat_sub(principal, fee) <= cost {
                                Some((v, 0))
                            } else {
                                let (s, rest) = value_split(trade, q.stable, q.total);
                                let bought = to_volatile(v.vol0(), rest, price);
                                let (a0, a1) = by_role(v.vol0(), bought, s);
                                Some(
                                    (
                                        VaultView {
                                            debt,
                                            pending0: a0,
                                            pending1: a1,
                                            revenue: wadd(v.revenue, fee),
                                            pending: Some(LevAmmOpMode::Mint),
                                            pending_trade: trade,
                                            ..v
                                        }.plus_stable(fee),
                                        fee,
                                    ),
                                )
                            },
                            None => None,
                        }
                    },
                    None => None,
                }
            }
        },
        None => None,
    }
}

/// Debt paid off, where the trade pays; also the fee.
#[verifier::opaque]
pub open spec fn lev_burn(v: VaultView, q: Quote, t: LevTerms) -> Option<(VaultView, int)> {
    match burn_goal(q) {
        Some(goal) => {
            let trade = capped_trade(q.coll, q.coll - goal, t.cap);
            if goal >= q.coll || goal == 0 || trade == 0 {
                Some((v, 0))
            } else {
                match curve_debt(q.ratio, q.x0, wsub(q.coll, trade)) {
                    Some(on_curve) => {
                        let debt = if on_curve < q.least {
                            q.least
                        } else {
                            on_curve
                        };
                        let principal = v.debt - debt;
                        let fee = floor_mul_div(principal, t.fee, fee_scale());
                        if debt >= v.debt || unwind_proceeds(trade, q.stable, q.total, t.fee)
                            <= wadd(principal, fee) {
                            Some((v, 0))
                        } else {
                            Some(
                                (
                                    VaultView {
                                        debt,
                                        revenue: wadd(v.revenue, fee),
                                        pending: Some(LevAmmOpMode::Burn),
                                        pending_trade: trade,
                                        ..v
                                    }.plus_stable(fee),
                                    fee,
                                ),
                            )
                        }
                    },
                    None => None,
                }
            }
        },
        None => None,
    }
}

/// The curve's ratio, the debt at the target ratio and the largest debt that the
/// curve bears. The ratio may be zero.
pub ghost struct Bounds {
    pub ratio: int,
    pub goal: int,
    pub limit: int,
}

#[verifier::opaque]
pub open spec fn lev_bounds(coll: int, tc: int) -> Option<Bounds> {
    match curve_ratio(tc) {
        Some(ratio) => if ratio == 0 {
            Some(Bounds { ratio, goal: 0, limit: 0 })
        } else {
            match checked_mul_div(coll, one_wad(), wmul(4, ratio)) {
                Some(limit) => Some(
                    Bounds { ratio, goal: floor_mul_div(coll, one_wad(), tc), limit },
                ),
                None => None,
            }
        },
        None => None,
    }
}

/// The quote for a collateral value. Its size is zero where there is no curve.
#[verifier::opaque]
pub open spec fn lev_quote(debt: int, coll: int, stable: int, total: int, b: Bounds, fee: int) -> Option<
    Quote,
> {
    let limit = b.limit;
    match curve_x0(coll, smaller(debt, limit), b.ratio) {
        Some(x0) => if x0 == 0 {
            Some(
                Quote {
                    coll,
                    stable,
                    total,
                    ratio: b.ratio,
                    x0,
                    sell: 0,
                    buy: 0,
                    least: 0,
                    most: 0,
                },
            )
        } else {
            match acquire_cost_unit(stable, total, fee) {
                Some(cost) => match (
                    ceil_mul_div(cost, fee_scale(), wsub(fee_scale(), fee)),
                    checked_mul_div(
                        unwind_proceeds_unit(stable, total, fee),
                        fee_scale(),
                        wadd(fee_scale(), fee),
                    ),
                ) {
                    (Some(sell), Some(buy)) => Some(
                        Quote {
                            coll,
                            stable,
                            total,
                            ratio: b.ratio,
                            x0,
                            sell,
                            buy,
                            least: b.goal / 8,
                            most: if limit > coll / 32 {
                                limit - coll / 32
                            } else {
                                limit
                            },
                        },
                    ),
                    _ => None,
                },
                None => None,
            }
        },
        None => None,
    }
}

/// A step once there is a notional: a trade along the curve, or none.
#[verifier::opaque]
pub open spec fn lev_traded(
    v: VaultView,
    coll: int,
    stable: int,
    total: int,
    price: int,
    t: LevTerms,
    tc: int,
) -> Option<(VaultView, int)> {
    match lev_bounds(coll, tc) {
        Some(b) => if b.ratio == 0 {
            Some((v, 0))
        } else if v.debt > b.limit && v.debt < b.goal {
            Some((VaultView { insolvent: true, ..v }, 0))
        } else {
            let w = VaultView { insolvent: v.insolvent && v.debt > b.limit, ..v };
            if wsub(fee_scale(), t.fee) == 0 {
                Some((w, 0))
            } else {
                match lev_quote(v.debt, coll, stable, total, b, t.fee) {
                    Some(q) => if q.x0 == 0 {
                        Some((w, 0))
                    } else if v.debt < q.most {
                        lev_mint(w, q, t, price)
                    } else if v.debt > q.least {
                        lev_burn(w, q, t)
                    } else {
                        Some((w, 0))
                    },
                    None => None,
                }
            }
        },
        None => None,
    }
}

/// What one step decides for given holdings; also its fee. There is no outcome while
/// an earlier decision is pending.
#[verifier::opaque]
pub open spec fn lev_step(v: VaultView, t0: int, t1: int, price: int, t: LevTerms, tc: int) -> Option<
    (VaultView, int),
> {
    let total = stable_value(v.vol0(), t0, t1, price);
    let (volatile, stable) = by_role(v.vol0(), t0, t1);
    if v.pending is Some {
        None
    } else if total == 0 || tc <= one_wad() {
        Some((v, 0))
    } else if v.notional == 0 {
        Some((lev_started(v, total, to_stable(v.vol0(), volatile, price), tc), 0))
    } else {
        let unit = floor_mul_div(total, one_wad(), v.notional);
        let coll = floor_mul_div(unit, v.collateral, one_wad());
        if v.collateral == 0 || unit == 0 || coll == 0 {
            Some((v, 0))
        } else {
            lev_traded(v, coll, stable, total, price, t, tc)
        }
    }
}

/// The part of two amounts that falls to a range by its liquidity, minted into it.
#[verifier::opaque]
pub open spec fn lev_minted_slot(
    v: VaultView,
    p: PoolView,
    slot: Slot,
    a0: int,
    a1: int,
    total: int,
) -> Option<(VaultView, PoolView)> {
    match v.range(slot) {
        Some(r) => {
            let part = floor_mul_div(r.liquidity, fee_scale(), total);
            let f0 = floor_mul_div(a0, part, fee_scale());
            let f1 = floor_mul_div(a1, part, fee_scale());
            if r.liquidity == 0 || (f0 == 0 && f1 == 0) {
                Some((v, p))
            } else {
                match max_liquidity(p.price, r.lower, r.upper, f0, f1) {
                    Some(raw) => match capped_liquidity(
                        p.price,
                        r.lower,
                        r.upper,
                        raw,
                        v.idle0,
                        v.idle1,
                    ) {
                        Some(l) => if l == 0 {
                            Some((v, p))
                        } else {
                            match minted_range(v, p, r.lower, r.upper, l) {
                                Some((w, q, u0, u1)) => Some(
                                    (
                                        w.with_range(
                                            slot,
                                            Some(
                                                RangeView {
                                                    liquidity: wadd(r.liquidity, l),
                                                    ..r
                                                },
                                            ),
                                        ),
                                        q,
                                    ),
                                ),
                                None => None,
                            }
                        },
                        None => None,
                    },
                    None => None,
                }
            }
        },
        None => Some((v, p)),
    }
}

pub open spec fn range_liquidity(r: Option<RangeView>) -> int {
    match r {
        Some(x) => x.liquidity,
        None => 0,
    }
}

/// Two amounts minted into the wide and the base range by their liquidity.
#[verifier::opaque]
pub open spec fn lev_minted(v: VaultView, p: PoolView, a0: int, a1: int) -> Option<
    (VaultView, PoolView),
> {
    let total = wadd(range_liquidity(v.wide), range_liquidity(v.base));
    let w = v.plus_idle(a0, a1);
    if a0 == 0 && a1 == 0 {
        Some((v, p))
    } else if total == 0 {
        Some((w, p))
    } else {
        match lev_minted_slot(w, p, Slot::Wide, a0, a1, total) {
            Some((w1, p1)) => lev_minted_slot(w1, p1, Slot::Base, a0, a1, total),
            None => None,
        }
    }
}

/// Ranges unwound for a trade. What came out leaves the vault.
#[verifier::opaque]
pub open spec fn lev_burned(v: VaultView, p: PoolView, trade: int, price: int) -> Option<
    (VaultView, PoolView),
> {
    match unwound(v, p, trade, price) {
        Some(u) => {
            let w = u.vault;
            let out0 = sat_sub(u.out0, wsub(w.fees0, v.fees0));
            let out1 = sat_sub(u.out1, wsub(w.fees1, v.fees1));
            Some(
                (
                    w.minus_idle(
                        smaller(out0, sat_sub(w.idle0, v.idle0)),
                        smaller(out1, sat_sub(w.idle1, v.idle1)),
                    ),
                    u.pool,
                ),
            )
        },
        None => None,
    }
}

/// What is pending carried out.
#[verifier::opaque]
pub open spec fn lev_applied(v: VaultView, p: PoolView, price: int) -> Option<
    (VaultView, PoolView),
> {
    let w = VaultView {
        pending: None,
        pending_trade: 0,
        pending_init: false,
        pending0: 0,
        pending1: 0,
        ..v
    };
    match v.pending {
        None => Some((w, p)),
        Some(LevAmmOpMode::Mint) => if v.pending_init {
            match emptied(w.plus_idle(v.pending0, v.pending1), p) {
                Some((x, q)) => rebalanced(x, q),
                None => None,
            }
        } else {
            lev_minted(w, p, v.pending0, v.pending1)
        },
        Some(LevAmmOpMode::Burn) => if v.pending_trade == 0 {
            Some((w, p))
        } else {
            lev_burned(w, p, v.pending_trade, price)
        },
    }
}

/// One step at a price, carried out at once; also its fee and whether it traded.
pub open spec fn lev_run(v: VaultView, p: PoolView, t: LevTerms, tc: int, o: Option<int>) -> Option<
    (VaultView, PoolView, (int, bool)),
> {
    let price = price_of(price_or(p, o));
    match totals_at(v, p, price_or(p, o), false) {
        Some((t0, t1)) => match lev_step(v, t0, t1, price, t, tc) {
            Some((w, fee)) => match lev_applied(w, p, price) {
                Some((x, q)) => Some((x, q, (fee, w.pending is Some))),
                None => None,
            },
            None => None,
        },
        None => None,
    }
}

} // verus!
