//! The model of the debt of a vault: how much to borrow or to repay for a target
//! ratio of value to debt, and what doing so changes.
use crate::full_math::{ceil_mul_div, checked_mul_div, floor_mul_div};
use crate::pool_model::PoolView;
use crate::types::abs;
use crate::vault_math::{
    by_role, ceil_quotient, fee_scale, larger, one_wad, price_of, sat_sub, smaller, to_stable,
    to_volatile, wadd, wmul, wsub,
};
use crate::vault_model::{price_or, pro_rata_deposited, totals, unwound, VaultView};
use vstd::prelude::*;

verus! {

/// A plan to borrow (mode 1) or to repay (mode 2), or none (mode 0).
pub ghost struct PlanView {
    pub mode: int,
    pub amount: int,
    pub swap_fee: int,
    pub shares: int,
    pub stable: int,
    pub volatile: int,
}

pub open spec fn no_plan() -> PlanView {
    PlanView { mode: 0, amount: 0, swap_fee: 0, shares: 0, stable: 0, volatile: 0 }
}

/// A fee on an amount.
pub open spec fn fee_on(amount: int, fee: int) -> int {
    floor_mul_div(amount, fee, fee_scale())
}

/// What a plan is made from: the value and the debt, the target ratio, the fee and
/// the price; the holdings rounded down and up; the ratio of the stable holdings to
/// the value of the volatile ones.
#[verifier::ext_equal]
pub ghost struct Terms {
    pub vol0: bool,
    pub value: int,
    pub debt: int,
    pub tc: int,
    pub fee: int,
    pub price: int,
    pub volatile: int,
    pub stable: int,
    pub volatile_up: int,
    pub stable_up: int,
    pub ratio: int,
    pub supply: int,
}

impl Terms {
    pub open spec fn target(self) -> int {
        floor_mul_div(self.debt, self.tc, one_wad())
    }

    pub open spec fn after_fee(self) -> int {
        wsub(fee_scale(), self.fee)
    }
}

/// The ratio of the stable holdings to the value of the volatile ones; 10^36 where
/// that value is zero.
pub open spec fn holdings_ratio(stable: int, value: int) -> int {
    if value == 0 {
        1_000_000_000_000_000_000_000_000_000_000_000_000
    } else {
        floor_mul_div(stable, one_wad(), value)
    }
}

/// The terms of a plan at a price; none where the amounts held do not exist.
#[verifier::opaque]
pub open spec fn plan_terms(v: VaultView, p: PoolView, o: Option<int>, tc: int, fee: int) -> Option<
    Terms,
> {
    let price = price_of(price_or(p, o));
    match (totals(v, p, false), totals(v, p, true)) {
        (Some((t0, t1)), Some((u0, u1))) => {
            let (volatile, stable) = by_role(v.vol0(), t0, t1);
            let (volatile_up, stable_up) = by_role(v.vol0(), u0, u1);
            Some(
                Terms {
                    vol0: v.vol0(),
                    value: wadd(stable, to_stable(v.vol0(), volatile, price)),
                    debt: v.debt,
                    tc,
                    fee,
                    price,
                    volatile,
                    stable,
                    volatile_up,
                    stable_up,
                    ratio: holdings_ratio(stable_up, to_stable(v.vol0(), volatile_up, price)),
                    supply: v.supply,
                },
            )
        },
        _ => None,
    }
}

// ── borrowing ──

/// The part of a loan that buys volatile tokens, and the part that is deposited as it
/// is, before they are matched to the holdings. Nothing is borrowed where the first
/// number is zero.
#[verifier::opaque]
pub open spec fn first_split(t: Terms) -> Option<(int, int, int)> {
    let denom = wadd(one_wad(), floor_mul_div(t.ratio, t.after_fee(), fee_scale()));
    let denom_fee = wadd(denom, floor_mul_div(one_wad(), t.fee, fee_scale()));
    match checked_mul_div(t.value - t.target(), denom, denom_fee) {
        Some(b) => if b == 0 {
            Some((0, 0, 0))
        } else {
            match checked_mul_div(b, one_wad(), denom) {
                Some(x) => Some((b, x, sat_sub(b, x))),
                None => None,
            }
        },
        None => None,
    }
}

/// The volatile amount that a stable amount buys after the fee.
pub open spec fn bought(t: Terms, x: int) -> int {
    to_volatile(t.vol0, sat_sub(x, fee_on(x, t.fee)), t.price)
}

/// The lowest and the highest ratio of the holdings, with six per cent to spare.
pub open spec fn ratio_bounds(t: Terms) -> (int, int) {
    let up = floor_mul_div(t.stable_up, one_wad(), t.volatile_up);
    let down = floor_mul_div(t.stable, one_wad(), t.volatile);
    (
        floor_mul_div(smaller(up, down), 940_000, fee_scale()),
        floor_mul_div(larger(up, down), 1_060_000, fee_scale()),
    )
}

/// The split matched to the proportion of the holdings, where both tokens are held.
#[verifier::opaque]
pub open spec fn matched_split(t: Terms, x: int, plan: int) -> Option<(int, int)> {
    if t.volatile_up == 0 || t.stable_up == 0 || t.volatile == 0 || t.stable == 0 {
        Some((x, plan))
    } else {
        let (low, high) = ratio_bounds(t);
        let got = bought(t, x);
        let beside = floor_mul_div(got, low, one_wad());
        match ceil_mul_div(beside, one_wad(), high) {
            Some(least) => if wadd(got, 10) >= least {
                match ceil_mul_div(
                    to_stable(t.vol0, sat_sub(least, 10), t.price),
                    fee_scale(),
                    t.after_fee(),
                ) {
                    Some(y) => Some((y, floor_mul_div(bought(t, y), low, one_wad()))),
                    None => None,
                }
            } else {
                Some((x, beside))
            },
            None => None,
        }
    }
}

/// The loan that a split asks for, scaled so that the target ratio is met.
#[verifier::opaque]
pub open spec fn first_loan(t: Terms, x: int, plan: int) -> Option<int> {
    let required = wadd(x, plan);
    let net = sat_sub(required, fee_on(x, t.fee));
    let num = sat_sub(wmul(t.value, one_wad()), wmul(t.tc, t.debt));
    let cost = wmul(t.tc, required);
    let gain = wmul(one_wad(), net);
    let den = if cost > gain {
        cost - gain
    } else {
        1
    };
    if required == 0 || num == 0 {
        Some(required)
    } else {
        ceil_mul_div(required, num, den)
    }
}

/// The swap fee of a loan that is split as planned.
#[verifier::opaque]
pub open spec fn loan_fee(t: Terms, required: int, plan: int, loan: int) -> Option<int> {
    if required == 0 {
        Some(fee_on(loan, t.fee))
    } else {
        match ceil_mul_div(plan, loan, required) {
            Some(s) => Some(fee_on(sat_sub(loan, smaller(s, loan)), t.fee)),
            None => None,
        }
    }
}

/// The ratio of value to debt after a loan.
#[verifier::opaque]
pub open spec fn ratio_after(t: Terms, required: int, plan: int, loan: int) -> Option<int> {
    match loan_fee(t, required, plan, loan) {
        Some(f) => checked_mul_div(
            wadd(t.value, sat_sub(loan, f)),
            one_wad(),
            wadd(t.debt, loan),
        ),
        None => None,
    }
}

/// A search for the loan after which the ratio is closest to the target.
pub ghost struct Search {
    pub low: int,
    pub high: int,
    pub best: int,
    pub off: int,
}

/// One step of the search: the middle is tried, and the half that holds the target
/// is kept.
#[verifier::opaque]
pub open spec fn search_step(t: Terms, required: int, plan: int, s: Search) -> Option<Search> {
    let mid = wadd(s.low, s.high) / 2;
    match ratio_after(t, required, plan, mid) {
        Some(cr) => {
            let off = abs(cr - t.tc);
            let (low, high) = if cr > t.tc {
                (mid, s.high)
            } else {
                (s.low, mid)
            };
            Some(
                Search {
                    low,
                    high,
                    best: if off < s.off {
                        mid
                    } else {
                        s.best
                    },
                    off: smaller(off, s.off),
                },
            )
        },
        None => None,
    }
}

/// Up to `n` steps, until the target is met within a thousandth or the interval is
/// empty.
pub open spec fn searched(t: Terms, required: int, plan: int, s: Search, n: nat) -> Option<Search>
    decreases n,
{
    if n == 0 || wsub(s.high, s.low) <= 1 {
        Some(s)
    } else {
        match search_step(t, required, plan, s) {
            Some(u) => if u.off <= t.tc / 1000 {
                Some(u)
            } else {
                searched(t, required, plan, u, (n - 1) as nat)
            },
            None => None,
        }
    }
}

/// The loan that brings the ratio closest to the target.
#[verifier::opaque]
pub open spec fn best_loan(t: Terms, required: int, plan: int, loan: int) -> Option<int> {
    match ratio_after(t, required, plan, loan) {
        Some(cr) => {
            let off = abs(cr - t.tc);
            if off <= t.tc / 1000 {
                Some(loan)
            } else {
                let low = if loan > 1 {
                    loan / 2
                } else {
                    1
                };
                let s = Search { low, high: wmul(loan, 2), best: loan, off };
                match searched(t, required, plan, s, 40) {
                    Some(u) => Some(u.best),
                    None => None,
                }
            }
        },
        None => None,
    }
}

/// The plan to borrow where the value is above the target.
#[verifier::opaque]
pub open spec fn borrowing(t: Terms) -> Option<PlanView> {
    match first_split(t) {
        Some((b, x0, plan0)) => if b == 0 {
            Some(no_plan())
        } else {
            match matched_split(t, x0, plan0) {
                Some((x, plan)) => {
                    let required = wadd(x, plan);
                    match first_loan(t, x, plan) {
                        Some(first) => match best_loan(t, required, plan, first) {
                            Some(loan) => if loan == 0 {
                                Some(no_plan())
                            } else {
                                match loan_fee(t, required, plan, loan) {
                                    Some(f) => Some(
                                        PlanView { mode: 1, amount: loan, swap_fee: f, ..no_plan()
                                        },
                                    ),
                                    None => None,
                                }
                            },
                            None => None,
                        },
                        None => None,
                    }
                },
                None => None,
            }
        },
        None => None,
    }
}

/// The plan to repay where the value is below the target.
#[verifier::opaque]
pub open spec fn repaying(t: Terms) -> Option<PlanView> {
    let unit = wadd(t.ratio, one_wad());
    let twice = wmul(floor_mul_div(one_wad(), t.fee, fee_scale()), 2);
    match checked_mul_div(twice, one_wad(), unit) {
        Some(term) => if term >= one_wad() {
            Some(
                PlanView {
                    mode: 2,
                    amount: smaller(t.value, t.debt),
                    swap_fee: 0,
                    shares: t.supply,
                    stable: t.stable,
                    volatile: t.volatile,
                },
            )
        } else {
            let wanted = smaller(
                ceil_quotient(wmul(t.target() - t.value, one_wad()), one_wad() - term),
                t.value,
            );
            let stable = floor_mul_div(wanted, t.ratio, unit);
            let rest = sat_sub(wanted, stable);
            let f = fee_on(rest, t.fee);
            Some(
                PlanView {
                    mode: 2,
                    amount: smaller(wadd(stable, sat_sub(rest, f)), t.debt),
                    swap_fee: f,
                    shares: if t.value == 0 {
                        0
                    } else {
                        smaller(floor_mul_div(t.supply, wanted, t.value), t.supply)
                    },
                    stable,
                    volatile: to_volatile(t.vol0, rest, t.price),
                },
            )
        },
        None => None,
    }
}

/// The plan for a target ratio.
#[verifier::opaque]
pub open spec fn debt_plan(v: VaultView, p: PoolView, o: Option<int>, tc: int, fee: int) -> Option<
    PlanView,
> {
    if price_of(price_or(p, o)) == 0 {
        Some(no_plan())
    } else {
        match plan_terms(v, p, o, tc, fee) {
            Some(t) => if t.value > t.target() {
                borrowing(t)
            } else if t.target() > t.value {
                repaying(t)
            } else {
                Some(no_plan())
            },
            None => None,
        }
    }
}

/// The two amounts that a stable amount is split into by the proportion of the
/// holdings, at the pool's price.
#[verifier::opaque]
pub open spec fn loan_split(v: VaultView, p: PoolView, net: int) -> Option<(int, int)> {
    let price = price_of(p.price);
    match totals(v, p, false) {
        Some((t0, t1)) => {
            let (volatile, stable) = by_role(v.vol0(), t0, t1);
            let total = wadd(stable, to_stable(v.vol0(), volatile, price));
            let (dv, ds) = if total == 0 {
                (0, net)
            } else {
                let ds = floor_mul_div(net, floor_mul_div(stable, one_wad(), total), one_wad());
                (to_volatile(v.vol0(), sat_sub(net, ds), price), ds)
            };
            if v.vol0() {
                Some((dv, ds))
            } else {
                Some((ds, dv))
            }
        },
        None => None,
    }
}

/// A loan taken and deposited in the proportion of the holdings. What the deposit
/// leaves stays idle.
#[verifier::opaque]
pub open spec fn levered(v: VaultView, p: PoolView, loan: int, fee: int) -> Option<
    (VaultView, PoolView),
> {
    match loan_split(v, p, sat_sub(loan, fee)) {
        Some((d0, d1)) => match pro_rata_deposited(
            VaultView { debt: wadd(v.debt, loan), ..v },
            p,
            d0,
            d1,
        ) {
            Some((w, q, a0, a1)) => Some((w.plus_idle(sat_sub(d0, a0), sat_sub(d1, a1)), q)),
            None => None,
        },
        None => None,
    }
}

/// The debt that is repaid when more or less than planned has come out.
pub open spec fn repaid(plan: PlanView, vol0: bool, volatile: int, stable: int, price: int) -> int {
    let first = if volatile > plan.volatile {
        wadd(plan.amount, to_stable(vol0, volatile - plan.volatile, price))
    } else if plan.volatile > volatile {
        sat_sub(plan.amount, to_stable(vol0, plan.volatile - volatile, price))
    } else {
        plan.amount
    };
    if stable > plan.stable {
        wadd(first, stable - plan.stable)
    } else if plan.stable > stable {
        sat_sub(first, plan.stable - stable)
    } else {
        first
    }
}

/// Shares burned and ranges unwound to repay.
#[verifier::opaque]
pub open spec fn delevered(v: VaultView, p: PoolView, plan: PlanView) -> Option<
    (VaultView, PoolView),
> {
    if plan.shares == 0 || v.supply < plan.shares {
        Some((v, p))
    } else {
        let price = price_of(p.price);
        let i0 = floor_mul_div(v.idle0, plan.shares, v.supply);
        let i1 = floor_mul_div(v.idle1, plan.shares, v.supply);
        let w = VaultView { supply: wsub(v.supply, plan.shares), ..v }.minus_idle(i0, i1);
        match unwound(w, p, plan.amount, price) {
            Some(u) => {
                let (volatile, stable) = by_role(v.vol0(), wadd(i0, u.out0), wadd(i1, u.out1));
                let x = u.vault.minus_idle(u.out0, u.out1);
                let back = smaller(repaid(plan, v.vol0(), volatile, stable, price), x.debt);
                Some((VaultView { debt: wsub(x.debt, back), ..x }, u.pool))
            },
            None => None,
        }
    }
}

/// The debt brought to the target ratio, in one step.
pub open spec fn debt_rebalanced(v: VaultView, p: PoolView, tc: int, fee: int) -> Option<
    (VaultView, PoolView),
> {
    if tc <= one_wad() {
        Some((v, p))
    } else {
        match debt_plan(v, p, None, tc, fee) {
            Some(plan) => if plan.mode == 0 || plan.amount == 0 {
                Some((v, p))
            } else if plan.mode == 1 {
                levered(v, p, plan.amount, plan.swap_fee)
            } else {
                delevered(v, p, plan)
            },
            None => None,
        }
    }
}

/// As `debt_rebalanced`, and nothing without a debt.
pub open spec fn standing_debt_rebalanced(v: VaultView, p: PoolView, tc: int, fee: int) -> Option<
    (VaultView, PoolView),
> {
    if v.debt == 0 {
        Some((v, p))
    } else {
        debt_rebalanced(v, p, tc, fee)
    }
}

/// Debt taken on or paid off in stable tokens alone, where that also evens out the
/// two sides: taken on where the ratio is above the target and the volatile side is
/// the larger one, paid off from what is idle where both are the other way.
pub open spec fn regulated_by(
    v: VaultView,
    volatile_value: int,
    stable: int,
    tc: int,
) -> (VaultView, Seq<char>) {
    let gross = wadd(stable, volatile_value);
    let ratio = floor_mul_div(gross, one_wad(), v.debt);
    let have = wmul(gross, one_wad());
    let want = wmul(tc, v.debt);
    if ratio > tc && volatile_value > stable {
        let amount = smaller(volatile_value - stable, (have - want) / (tc - one_wad()));
        if have > want && amount != 0 {
            (VaultView { debt: wadd(v.debt, amount), ..v }.plus_stable(amount), "mint"@)
        } else {
            (v, "noop"@)
        }
    } else if ratio < tc && stable > volatile_value {
        let amount = smaller(
            smaller(smaller(stable - volatile_value, (want - have) / (tc - one_wad())), v.debt),
            v.stable_idle(),
        );
        if want > have && amount != 0 {
            (VaultView { debt: wsub(v.debt, amount), ..v }.minus_stable(amount), "burn"@)
        } else {
            (v, "noop"@)
        }
    } else {
        (v, "noop"@)
    }
}

/// The debt regulated towards the target ratio; also what was done.
pub open spec fn regulated(v: VaultView, p: PoolView, o: Option<int>, tc: int) -> Option<
    (VaultView, Seq<char>),
> {
    if v.debt == 0 || tc <= one_wad() {
        Some((v, "noop"@))
    } else {
        match totals(v, p, false) {
            Some((t0, t1)) => {
                let price = price_of(price_or(p, o));
                let (volatile, stable) = by_role(v.vol0(), t0, t1);
                if !v.vol0() && price == 0 {
                    Some((v, "noop"@))
                } else {
                    Some(regulated_by(v, to_stable(v.vol0(), volatile, price), stable, tc))
                }
            },
            None => None,
        }
    }
}

/// What is idle, after one side of it has been swapped for the other at a price so
/// that both are worth the same.
pub open spec fn evened(v: VaultView, price: int, fee: int) -> Option<VaultView> {
    let (volatile, stable) = by_role(v.vol0(), v.idle0, v.idle1);
    let value = to_stable(v.vol0(), volatile, price);
    let denom = wsub(wadd(fee_scale(), fee_scale()), fee);
    let after_fee = wsub(fee_scale(), fee);
    if price == 0 || value == stable || denom == 0 {
        Some(v)
    } else {
        match ceil_mul_div(abs(stable - value), fee_scale(), denom) {
            Some(amount) => if stable > value {
                let paid = smaller(amount, stable);
                let got = to_volatile(
                    v.vol0(),
                    floor_mul_div(paid, after_fee, fee_scale()),
                    price,
                );
                if paid == 0 || got == 0 {
                    Some(v)
                } else if v.vol0() {
                    Some(VaultView { idle0: wadd(v.idle0, got), idle1: wsub(v.idle1, paid), ..v })
                } else {
                    Some(VaultView { idle0: wsub(v.idle0, paid), idle1: wadd(v.idle1, got), ..v })
                }
            } else {
                let paid = smaller(to_volatile(v.vol0(), amount, price), volatile);
                let got = floor_mul_div(
                    to_stable(v.vol0(), paid, price),
                    after_fee,
                    fee_scale(),
                );
                if amount == 0 || paid == 0 || got == 0 {
                    Some(v)
                } else if v.vol0() {
                    Some(VaultView { idle0: wsub(v.idle0, paid), idle1: wadd(v.idle1, got), ..v })
                } else {
                    Some(VaultView { idle0: wadd(v.idle0, got), idle1: wsub(v.idle1, paid), ..v })
                }
            },
            None => None,
        }
    }
}

} // verus!
