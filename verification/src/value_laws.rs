//! What the holdings of a vault are worth, and how they are placed and evened out.
use crate::arith::{p128, p256, p64};
use crate::debt_laws::{ceil_facts, floor_facts, p100, p124, p76, price_is_bounded, small};
use crate::debt_model::{evened, regulated, regulated_by};
use crate::full_math::{ceil_mul_div, floor_mul_div};
use crate::pool_model::PoolView;
use crate::types::abs;
use crate::vault_laws::{rebalance_moves_holdings, withdrawal_moves_holdings};
use crate::vault_math::{
    by_role, max_liquidity, one_wad, price_of, smaller, to_stable, to_volatile, wadd,
};
use crate::vault_model::{
    collateral_ratio, deposited, emptied, filled, gross_value, harvested, limit_filled, limit_side,
    minted_range, net_value, placed, price_or, rebalanced, share_deviation, share_off_half,
    stable_ratio, totals, RangeView, Slot, VaultView,
};
use crate::strategy_model::rebuilt;
use vstd::prelude::*;

verus! {

// ── worth ──

/// What a volatile amount is worth in stable tokens: the amount times the price where
/// token 0 is the volatile one, and over it where token 1 is, rounded down. At a price of
/// zero token 1 counts for nothing.
pub proof fn worth_is_amount_at_price(vol0: bool, amount: int, price: int)
    requires
        0 <= amount < p128(),
        0 <= price < p124(),
    ensures
        ({
            let r = to_stable(vol0, amount, price);
            &&& 0 <= r
            &&& vol0 ==> r * 1_000_000_000_000_000_000 <= amount * price && amount * price < (r + 1)
                * 1_000_000_000_000_000_000
            &&& !vol0 && price > 0 ==> r * price <= amount * 1_000_000_000_000_000_000 && amount
                * 1_000_000_000_000_000_000 < (r + 1) * price
            &&& !vol0 && price == 0 ==> r == 0
        }),
{
    assert(0 <= amount * price < p256() * one_wad()) by (nonlinear_arith)
        requires
            0 <= amount < p128(),
            0 <= price < p124(),
    ;
    floor_facts(amount, price, one_wad(), p256());
    if price > 0 {
        assert(amount * one_wad() < p256() * price) by (nonlinear_arith)
            requires
                0 <= amount < p128(),
                price >= 1,
        ;
        floor_facts(amount, one_wad(), price, p256());
    }
}

/// What volatile tokens a stable amount is worth: the amount over the price where token 0
/// is the volatile one, and times it where token 1 is, rounded down.
pub proof fn stable_amount_buys(vol0: bool, amount: int, price: int)
    requires
        0 <= amount < p128(),
        0 <= price < p124(),
    ensures
        ({
            let r = to_volatile(vol0, amount, price);
            &&& 0 <= r
            &&& !vol0 ==> r * 1_000_000_000_000_000_000 <= amount * price && amount * price < (r
                + 1) * 1_000_000_000_000_000_000
            &&& vol0 && price > 0 ==> r * price <= amount * 1_000_000_000_000_000_000 && amount
                * 1_000_000_000_000_000_000 < (r + 1) * price
            &&& vol0 && price == 0 ==> r == 0
        }),
{
    worth_is_amount_at_price(!vol0, amount, price);
}

/// The net value is the stable tokens and what the volatile ones are worth, less the debt;
/// nothing where the debt is larger.
#[verifier::rlimit(30)]
pub proof fn net_value_is_holdings_less_debt(v: VaultView, p: PoolView, o: Option<int>)
    ensures
        ({
            &&& net_value(v, p, o) is Some == totals(v, p, false) is Some
            &&& totals(v, p, false) matches Some((t0, t1)) ==> (0 <= t0 < p128() && 0 <= t1 < p128()
                ==> {
                let (volatile, stable) = if v.vol0() {
                    (t0, t1)
                } else {
                    (t1, t0)
                };
                let worth = to_stable(
                    v.vol0(),
                    volatile,
                    price_of(match o {
                        Some(x) => x,
                        None => p.price,
                    }),
                );
                let n = net_value(v, p, o)->0;
                &&& gross_value(v, p, o) == Some(stable + worth)
                &&& stable + worth > v.debt ==> n == stable + worth - v.debt
                &&& stable + worth <= v.debt ==> n == 0
            })
        }),
{
    if let Some((t0, t1)) = totals(v, p, false) {
        if 0 <= t0 < p128() && 0 <= t1 < p128() {
            let price = price_of(price_or(p, o));
            price_is_bounded(price_or(p, o));
            let (volatile, stable) = by_role(v.vol0(), t0, t1);
            worth_is_amount_at_price(v.vol0(), volatile, price);
            let r = to_stable(v.vol0(), volatile, price);
            assert(r < 0x1000_0000_0000_0000_0000_0000_0000_0000_0000_0000_0000_0000_0000_0000_0000_0000int)
                by (nonlinear_arith)
                requires
                    r * one_wad() <= volatile * price || r * price <= volatile * one_wad() && price
                        >= 1 || r == 0,
                    0 <= volatile < p128(),
                    0 <= price < p124(),
                    0 <= r,
            ;
            small(stable + r);
        }
    }
}

/// The ratio of value to debt is told in units of 10^18, rounded down. Without a debt it
/// has no bound.
pub proof fn collateral_ratio_is_value_over_debt(v: VaultView, p: PoolView, o: Option<int>)
    requires
        gross_value(v, p, o) matches Some(g) && 0 <= g < p128(),
        0 <= v.debt,
    ensures
        collateral_ratio(v, p, o) matches Some(r) && {
            let g = gross_value(v, p, o)->0;
            &&& v.debt == 0 ==> r == 0x7fff_ffff_ffff_ffff_ffff_ffff_ffff_ffff
            &&& v.debt > 0 ==> r * v.debt <= g * 1_000_000_000_000_000_000 && g
                * 1_000_000_000_000_000_000 < (r + 1) * v.debt
        },
{
    let g = gross_value(v, p, o)->0;
    if v.debt > 0 {
        assert(g * one_wad() < p256() * v.debt) by (nonlinear_arith)
            requires
                0 <= g < p128(),
                v.debt >= 1,
        ;
        floor_facts(g, one_wad(), v.debt, p256());
    }
}

/// The ratio of the holdings is the stable tokens over what the volatile ones are worth, in
/// units of 10^18, rounded down. Without volatile tokens of any worth it has no bound.
pub proof fn holdings_ratio_is_stable_over_volatile(v: VaultView, p: PoolView, o: Option<int>)
    requires
        totals(v, p, true) matches Some((t0, t1)) && 0 <= t0 < p128() && 0 <= t1 < p128(),
    ensures
        stable_ratio(v, p, o) matches Some(r) && {
            let (t0, t1) = totals(v, p, true)->0;
            let (volatile, stable) = if v.vol0() {
                (t0, t1)
            } else {
                (t1, t0)
            };
            let worth = to_stable(
                v.vol0(),
                volatile,
                price_of(match o {
                    Some(x) => x,
                    None => p.price,
                }),
            );
            &&& worth == 0 ==> r == 0x7fff_ffff_ffff_ffff_ffff_ffff_ffff_ffff
            &&& worth > 0 ==> r * worth <= stable * 1_000_000_000_000_000_000 && stable
                * 1_000_000_000_000_000_000 < (r + 1) * worth
        },
{
    let (t0, t1) = totals(v, p, true)->0;
    let (volatile, stable) = by_role(v.vol0(), t0, t1);
    let price = price_of(price_or(p, o));
    price_is_bounded(price_or(p, o));
    worth_is_amount_at_price(v.vol0(), volatile, price);
    let worth = to_stable(v.vol0(), volatile, price);
    if worth > 0 {
        assert(stable * one_wad() < p256() * worth) by (nonlinear_arith)
            requires
                0 <= stable < p128(),
                worth >= 1,
        ;
        floor_facts(stable, one_wad(), worth, p256());
    }
}

/// How far the stable share is from one half is told in ten-thousandths: the nearest number
/// to the share differs from five thousand by it.
#[verifier::rlimit(30)]
pub proof fn deviation_is_from_one_half(v: VaultView, p: PoolView, o: Option<int>)
    requires
        totals(v, p, true) matches Some((t0, t1)) && 0 <= t0 < p76() && 0 <= t1 < p76(),
        ({
            let (t0, t1) = totals(v, p, true)->0;
            let volatile = if v.vol0() {
                t0
            } else {
                t1
            };
            0 <= to_stable(v.vol0(), volatile, price_of(price_or(p, o))) < p128()
        }),
        price_of(price_or(p, o)) > 0,
    ensures
        share_deviation(v, p, o) matches Some(d) && {
            let (t0, t1) = totals(v, p, true)->0;
            let (volatile, stable) = if v.vol0() {
                (t0, t1)
            } else {
                (t1, t0)
            };
            let total = stable + to_stable(
                v.vol0(),
                volatile,
                price_of(match o {
                    Some(x) => x,
                    None => p.price,
                }),
            );
            &&& 0 <= d <= 5_000
            &&& total == 0 ==> d == 0
            &&& total > 0 ==> 2 * abs((5_000 + d) * total - 10_000 * stable) <= total || 2 * abs(
                (5_000 - d) * total - 10_000 * stable,
            ) <= total
        },
{
    let (t0, t1) = totals(v, p, true)->0;
    let (volatile, stable) = by_role(v.vol0(), t0, t1);
    let worth = to_stable(v.vol0(), volatile, price_of(price_or(p, o)));
    let total = stable + worth;
    small(total);
    if total > 0 {
        reveal(share_off_half);
        let n = stable * 10_000 + total / 2;
        small(stable * 10_000);
        small(n);
        crate::arith::div_facts(n, total);
        let share = n / total;
        assert(0 <= share <= 10_000 && share * total + n % total == n) by (nonlinear_arith)
            requires
                share == n / total,
                n == share * total + n % total,
                0 <= n % total < total,
                0 <= n,
                n < 10_001 * total,
                total > 0,
        ;
        let d = abs(share - 5_000);
        vstd::arithmetic::div_mod::lemma_small_mod(d as nat, p64() as nat);
        assert((5_000 + d == share || 5_000 - d == share));
        assert(total == 2 * (total / 2) + total % 2 && 0 <= total % 2 < 2);
        assert(2 * abs(share * total - 10_000 * stable) <= total);
    }
}

// ── placing ──

/// The ticks of a range around the price: so far below the usable tick at or below, and so
/// far above the next one, within the ticks that there are.
pub open spec fn reaches(r: Option<RangeView>, tick: int, spacing: int, width: int) -> bool {
    r matches Some(x) && {
        let below = tick / spacing * spacing;
        &&& x.lower == (if below - width < -887_272 {
            -887_272
        } else {
            below - width
        })
        &&& x.upper == (if below + spacing + width > 887_272 {
            887_272
        } else {
            below + spacing + width
        })
        &&& x.liquidity != 0
    }
}

/// The ticks of a range beside the price: below the usable tick at or below, or above the
/// next one.
pub open spec fn stands_beside(r: Option<RangeView>, tick: int, spacing: int, width: int) -> bool {
    r matches Some(x) && {
        let below = tick / spacing * spacing;
        &&& (x.lower == below - width && x.upper == below) || (x.lower == below + spacing && x.upper
            == below + spacing + width)
        &&& x.liquidity != 0
    }
}

proof fn placing_fills_slot(v: VaultView, p: PoolView, slot: Slot, lower: int, upper: int, raw: int)
    ensures
        placed(v, p, slot, lower, upper, raw) matches Some((w, q)) ==> {
            let r = w.range(slot);
            &&& r == v.range(slot) || (r matches Some(x) && x.lower == lower && x.upper == upper
                && x.liquidity != 0)
            &&& slot != Slot::Wide ==> w.wide == v.wide
            &&& slot != Slot::Base ==> w.base == v.base
            &&& slot != Slot::Limit ==> w.limit == v.limit
            &&& w.params == v.params && w.spacing == v.spacing
            &&& q.price == p.price && q.tick == p.tick
        },
{
    reveal(minted_range);
}

/// The other ranges, the settings and the price stay.
spec fn only_slot_set(v: VaultView, p: PoolView, w: VaultView, q: PoolView, slot: Slot) -> bool {
    &&& slot != Slot::Wide ==> w.wide == v.wide
    &&& slot != Slot::Base ==> w.base == v.base
    &&& slot != Slot::Limit ==> w.limit == v.limit
    &&& w.params == v.params && w.spacing == v.spacing
    &&& q.price == p.price && q.tick == p.tick
}

proof fn filling_sets_slot(v: VaultView, p: PoolView, slot: Slot, lower: int, upper: int)
    ensures
        filled(v, p, slot, lower, upper) matches Some((w, q)) ==> {
            &&& w.range(slot) == v.range(slot) || (w.range(slot) matches Some(x) && x.lower == lower
                && x.upper == upper && x.liquidity != 0)
            &&& only_slot_set(v, p, w, q, slot)
        },
{
    reveal(filled);
    if let Some(raw) = max_liquidity(p.price, lower, upper, v.idle0, v.idle1) {
        placing_fills_slot(v, p, slot, lower, upper, raw);
    }
}

proof fn limit_is_set_beside(v: VaultView, p: PoolView)
    ensures
        ({
            let floor = p.tick / v.spacing * v.spacing;
            limit_filled(v, p, floor, floor + v.spacing) matches Some((w, q)) ==> {
                &&& w.limit == v.limit || stands_beside(
                    w.limit,
                    p.tick,
                    v.spacing,
                    v.params.limit_threshold as int,
                )
                &&& only_slot_set(v, p, w, q, Slot::Limit)
                &&& !v.has_idle() ==> w == v && q == p
            }
        }),
{
    reveal(limit_filled);
    let floor = p.tick / v.spacing * v.spacing;
    if v.has_idle() {
        if let Some((lower, upper, raw)) = limit_side(v, p, floor, floor + v.spacing) {
            placing_fills_slot(v, p, Slot::Limit, lower, upper, raw);
        }
    }
}

/// Placing what is idle gives each range its place: the base and the wide one around the
/// price, as wide as the settings say, the wide one only where it has a weight, and the
/// limit one beside the price. A range that nothing was placed in stays as it was.
#[verifier::spinoff_prover]
#[verifier::rlimit(30)]
pub proof fn ranges_are_placed_around_price(v: VaultView, p: PoolView)
    ensures
        rebalanced(v, p) matches Some((w, q)) ==> {
            &&& w.base == v.base || reaches(
                w.base,
                p.tick,
                v.spacing,
                v.params.base_threshold as int,
            )
            &&& w.wide == v.wide || (v.params.wide_range_weight > 0 && reaches(
                w.wide,
                p.tick,
                v.spacing,
                v.params.wide_threshold as int,
            ))
            &&& w.limit == v.limit || (stands_beside(
                w.limit,
                p.tick,
                v.spacing,
                v.params.limit_threshold as int,
            ))
            &&& !v.has_idle() ==> w == v && q == p
        },
{
    reveal(rebalanced);
    let floor = p.tick / v.spacing * v.spacing;
    let ceil = floor + v.spacing;
    let b = v.params.base_threshold as int;
    let d = v.params.wide_threshold as int;
    let base_lower = if floor - b >= -887_272 {
        floor - b
    } else {
        -887_272
    };
    let base_upper = if ceil + b <= 887_272 {
        ceil + b
    } else {
        887_272
    };
    let wide_lower = if floor - d >= -887_272 {
        floor - d
    } else {
        -887_272
    };
    let wide_upper = if ceil + d <= 887_272 {
        ceil + d
    } else {
        887_272
    };
    filling_sets_slot(v, p, Slot::Base, base_lower, base_upper);
    let first = if base_lower < base_upper && v.has_idle() {
        filled(v, p, Slot::Base, base_lower, base_upper)
    } else {
        Some((v, p))
    };
    if let Some((v1, p1)) = first {
        filling_sets_slot(v1, p1, Slot::Wide, wide_lower, wide_upper);
        limit_is_set_beside(v1, p1);
        if let Some((v2, p2)) = filled(v1, p1, Slot::Wide, wide_lower, wide_upper) {
            limit_is_set_beside(v2, p2);
        }
    }
}

/// The first deposit gives as many shares as its larger amount, and no less than a
/// thousand. One that is placed at once later on gives none. The debt stays as it is.
pub proof fn first_deposit_gives_shares(v: VaultView, p: PoolView, a0: int, a1: int)
    ensures
        deposited(v, p, a0, a1) matches Some((w, q)) ==> {
            &&& v.supply != 0 ==> w.supply == v.supply
            &&& v.supply == 0 ==> w.supply >= 1_000 && w.supply >= a0 && w.supply >= a1 && (w.supply
                == 1_000 || w.supply == a0 || w.supply == a1)
            &&& w.debt == v.debt
            &&& q.price == p.price
        },
{
    let supply = if v.supply == 0 {
        crate::vault_model::first_supply(a0, a1)
    } else {
        v.supply
    };
    rebalance_moves_holdings(VaultView { supply, ..v }.plus_idle(a0, a1), p);
}

/// What a harvest adds to the fees told, it adds to what is idle.
pub proof fn harvest_tells_what_it_adds(v: VaultView, p: PoolView, lower: int, upper: int)
    ensures
        harvested(v, p, lower, upper) matches Some((w, q)) ==> exists|c0: int, c1: int|
            {
                &&& #[trigger] wadd(v.fees0, c0) == w.fees0
                &&& #[trigger] wadd(v.fees1, c1) == w.fees1
                &&& wadd(v.idle0, c0) == w.idle0
                &&& wadd(v.idle1, c1) == w.idle1
            },
{
    reveal(harvested);
}

// ── regulating ──

/// A vault whose debt was regulated in stable tokens alone. It is raised where the value is
/// above the target and the volatile side is the larger one: by no more than evens out the
/// two sides or meets the target, and one unit more would not do. It is paid off from what is
/// idle where both are the other way, with the same two bounds and those of the debt and of
/// what is idle. Nothing happens otherwise.
pub open spec fn regulated_rightly(
    v: VaultView,
    w: VaultView,
    what: Seq<char>,
    volatile_value: int,
    stable: int,
    tc: int,
) -> bool {
    let one = 1_000_000_000_000_000_000int;
    let gross = stable + volatile_value;
    let up = w.debt - v.debt;
    let idle = if v.vol0() {
        w.idle1 - v.idle1
    } else {
        w.idle0 - v.idle0
    };
    let have = if v.vol0() {
        v.idle1
    } else {
        v.idle0
    };
    &&& idle == up
    &&& up == 0 ==> w == v && what == "noop"@
    &&& up > 0 ==> {
        &&& what == "mint"@
        &&& gross * one > tc * v.debt
        &&& up <= volatile_value - stable
        &&& (gross + up) * one >= tc * (v.debt + up)
        &&& up == volatile_value - stable || (gross + up + 1) * one < tc * (v.debt + up + 1)
    }
    &&& up < 0 ==> {
        &&& what == "burn"@
        &&& gross * one < tc * v.debt
        &&& -up <= stable - volatile_value
        &&& -up <= v.debt
        &&& -up <= have
        &&& (gross + up) * one <= tc * (v.debt + up)
        &&& -up == stable - volatile_value || -up == v.debt || -up == have || (gross + up - 1) * one
            > tc * (v.debt + up - 1)
    }
    &&& gross * one >= (tc + 1) * v.debt && volatile_value > stable && (gross + 1) * one >= tc * (
    v.debt + 1) ==> up > 0
    &&& gross * one < tc * v.debt && stable > volatile_value && have > 0 && (gross - 1) * one <= tc
        * (v.debt - 1) ==> up < 0
}

/// Regulating the debt brings it towards the target and the two sides towards each other,
/// and stops where the first of both is reached. Without a debt, or for a target of one or
/// less, nothing happens.
pub proof fn regulation_stops_at_target(v: VaultView, p: PoolView, o: Option<int>, tc: int)
    requires
        totals(v, p, false) matches Some((t0, t1)) && 0 <= t0 < p76() && 0 <= t1 < p76(),
        ({
            let (t0, t1) = totals(v, p, false)->0;
            let volatile = if v.vol0() {
                t0
            } else {
                t1
            };
            0 <= to_stable(v.vol0(), volatile, price_of(price_or(p, o))) < p76()
        }),
        0 <= v.debt < p76(),
        0 <= v.idle0 < p76(),
        0 <= v.idle1 < p76(),
        tc < p100(),
        price_of(price_or(p, o)) > 0,
    ensures
        regulated(v, p, o, tc) matches Some((w, what)) && {
            let (t0, t1) = totals(v, p, false)->0;
            let (volatile, stable) = if v.vol0() {
                (t0, t1)
            } else {
                (t1, t0)
            };
            let worth = to_stable(
                v.vol0(),
                volatile,
                price_of(match o {
                    Some(x) => x,
                    None => p.price,
                }),
            );
            &&& v.debt == 0 || tc <= 1_000_000_000_000_000_000 ==> w == v && what == "noop"@
            &&& v.debt > 0 && tc > 1_000_000_000_000_000_000 ==> regulated_rightly(
                v,
                w,
                what,
                worth,
                stable,
                tc,
            )
        },
{
    let (t0, t1) = totals(v, p, false)->0;
    let (volatile, stable) = by_role(v.vol0(), t0, t1);
    let worth = to_stable(v.vol0(), volatile, price_of(price_or(p, o)));
    if v.debt > 0 && tc > one_wad() {
        weighing_is_right(v, worth, stable, tc);
    }
}

#[verifier::rlimit(30)]
proof fn weighing_is_right(v: VaultView, volatile_value: int, stable: int, tc: int)
    requires
        0 <= volatile_value < p76(),
        0 <= stable < p76(),
        0 < v.debt < p76(),
        0 <= v.idle0 < p76(),
        0 <= v.idle1 < p76(),
        1_000_000_000_000_000_000 < tc < p100(),
    ensures
        ({
            let (w, what) = regulated_by(v, volatile_value, stable, tc);
            regulated_rightly(v, w, what, volatile_value, stable, tc)
        }),
{
    let one = one_wad();
    let gross = stable + volatile_value;
    small(gross);
    small(gross * one);
    assert(0 <= tc * v.debt < p256()) by (nonlinear_arith)
        requires
            0 < tc < p100(),
            0 < v.debt < p76(),
    ;
    small(tc * v.debt);
    assert(gross * one < p256() * v.debt) by (nonlinear_arith)
        requires
            0 <= gross < 2 * p76(),
            one == one_wad(),
            v.debt >= 1,
    ;
    floor_facts(gross, one, v.debt, p256());
    let ratio = floor_mul_div(gross, one, v.debt);
    let step = tc - one;
    let over = gross * one - tc * v.debt;
    if ratio > tc {
        assert(gross * one >= (tc + 1) * v.debt) by (nonlinear_arith)
            requires
                ratio * v.debt <= gross * one,
                ratio >= tc + 1,
                v.debt > 0,
        ;
    } else {
        assert((ratio + 1) * v.debt <= (tc + 1) * v.debt) by (nonlinear_arith)
            requires
                ratio <= tc,
                v.debt > 0,
        ;
    }
    if ratio < tc {
        assert((ratio + 1) * v.debt <= tc * v.debt) by (nonlinear_arith)
            requires
                ratio + 1 <= tc,
                v.debt > 0,
        ;
    } else {
        assert(ratio * v.debt >= tc * v.debt) by (nonlinear_arith)
            requires
                ratio >= tc,
                v.debt > 0,
        ;
    }
    assert((tc + 1) * v.debt == tc * v.debt + v.debt) by (nonlinear_arith);
    assert(tc * (v.debt + 1) == tc * v.debt + tc && tc * (v.debt - 1) == tc * v.debt - tc)
        by (nonlinear_arith);
    let size = abs(over);
    crate::arith::div_facts(size, step);
    let q = size / step;
    assert(0 <= q && q * step <= size && size < (q + 1) * step) by (nonlinear_arith)
        requires
            size == q * step + size % step,
            0 <= size % step < step,
            0 <= size,
    ;
    assert(size >= step ==> q >= 1) by (nonlinear_arith)
        requires
            size < (q + 1) * step,
            step > 0,
    ;
    let (w, what) = regulated_by(v, volatile_value, stable, tc);
    let up = if ratio > tc && volatile_value > stable {
        smaller(volatile_value - stable, q)
    } else if ratio < tc && stable > volatile_value {
        -smaller(smaller(smaller(stable - volatile_value, q), v.debt), v.stable_idle())
    } else {
        0
    };
    small(v.debt + up);
    if v.vol0() {
        small(v.idle1 + up);
    } else {
        small(v.idle0 + up);
    }
    assert(w.debt - v.debt == up);
    assert(tc * (v.debt + up) == tc * v.debt + tc * up && tc * (v.debt + up + 1) == tc * v.debt + tc
        * up + tc && tc * (v.debt + up - 1) == tc * v.debt + tc * up - tc && up * step == tc * up
        - up * one && (-up) * step == -(up * step) && (up + 1) * step == up * step + step && (-up + 1) * step
        == -(up * step) + step) by (nonlinear_arith)
        requires
            step == tc - one,
    ;
    if up > 0 {
        assert(up * step <= q * step) by (nonlinear_arith)
            requires
                up <= q,
                step > 0,
        ;
    } else if up < 0 {
        assert((-up) * step <= q * step) by (nonlinear_arith)
            requires
                -up <= q,
                step > 0,
        ;
    }
}

// ── evening out ──

/// Evening out swaps the larger side for the smaller one, at the price and less the fee, so
/// that both end up worth the same within two units. Where stable tokens are the larger
/// side, what is paid and what it buys after the fee are just that; nothing else changes.
#[verifier::rlimit(30)]
pub proof fn evening_makes_sides_equal(v: VaultView, price: int, fee: int)
    requires
        0 <= v.idle0 < p76(),
        0 <= v.idle1 < p76(),
        0 < price < p124(),
        0 <= fee <= 1_000_000,
        ({
            let (volatile, stable) = by_role(v.vol0(), v.idle0, v.idle1);
            to_stable(v.vol0(), volatile, price) < stable
        }),
    ensures
        evened(v, price, fee) matches Some(w) && {
            let (volatile, stable) = if v.vol0() {
                (v.idle0, v.idle1)
            } else {
                (v.idle1, v.idle0)
            };
            let (more, less) = if v.vol0() {
                (w.idle0, w.idle1)
            } else {
                (w.idle1, w.idle0)
            };
            let paid = stable - less;
            let worth = to_stable(v.vol0(), volatile, price);
            &&& w == (VaultView { idle0: w.idle0, idle1: w.idle1, ..v })
            &&& w == v || {
                &&& 0 < paid <= stable
                &&& 0 <= worth * 1_000_000 + paid * (1_000_000 - fee) - less * 1_000_000 < 2_000_000
                    - fee
                &&& more == wadd(
                    volatile,
                    to_volatile(v.vol0(), paid * (1_000_000 - fee) / 1_000_000, price),
                )
            }
        },
{
    let (volatile, stable) = by_role(v.vol0(), v.idle0, v.idle1);
    worth_is_amount_at_price(v.vol0(), volatile, price);
    let worth = to_stable(v.vol0(), volatile, price);
    let diff = stable - worth;
    let denom = 2_000_000 - fee;
    small(2_000_000);
    small(denom);
    small(1_000_000 - fee);
    assert(diff * 1_000_000 <= diff * denom) by (nonlinear_arith)
        requires
            diff >= 0,
            denom >= 1_000_000,
    ;
    ceil_facts(diff, 1_000_000, denom, diff);
    let amount = ceil_mul_div(diff, 1_000_000, denom)->0;
    assert(amount * (1_000_000 - fee) <= amount * 1_000_000 && amount * denom == amount * 1_000_000
        + amount * (1_000_000 - fee) && (amount - 1) * denom == amount * denom - denom)
        by (nonlinear_arith)
        requires
            denom == 2_000_000 - fee,
            amount >= 0,
            fee >= 0,
    ;
    assert(0 <= amount * (1_000_000 - fee)) by (nonlinear_arith)
        requires
            amount >= 0,
            fee <= 1_000_000,
    ;
    floor_facts(amount, 1_000_000 - fee, 1_000_000, p128());
    small(stable - amount);
}

/// Where the volatile tokens are the larger side, what the swap is to give up is worth as
/// much as evens out the two sides after the fee, no more than one unit more, and what
/// comes back is its worth less the fee, rounded down.
#[verifier::rlimit(30)]
pub proof fn evening_sells_excess(v: VaultView, price: int, fee: int)
    requires
        0 <= v.idle0 < p76(),
        0 <= v.idle1 < p76(),
        0 < price < p124(),
        0 <= fee <= 1_000_000,
        ({
            let (volatile, stable) = by_role(v.vol0(), v.idle0, v.idle1);
            stable < to_stable(v.vol0(), volatile, price) < p128()
        }),
    ensures
        evened(v, price, fee) matches Some(w) && {
            let (volatile, stable) = if v.vol0() {
                (v.idle0, v.idle1)
            } else {
                (v.idle1, v.idle0)
            };
            let (less, more) = if v.vol0() {
                (w.idle0, w.idle1)
            } else {
                (w.idle1, w.idle0)
            };
            let worth = to_stable(v.vol0(), volatile, price);
            let sold = volatile - less;
            &&& w == (VaultView { idle0: w.idle0, idle1: w.idle1, ..v })
            &&& w == v || exists|amount: int|
                {
                    &&& 0 <= stable * 1_000_000 + amount * (1_000_000 - fee) - (worth - amount)
                        * 1_000_000 < 2_000_000 - fee
                    &&& 0 < sold <= volatile
                    &&& sold == volatile || sold == #[trigger] to_volatile(v.vol0(), amount, price)
                    &&& sold <= to_volatile(v.vol0(), amount, price)
                    &&& more == stable + to_stable(v.vol0(), sold, price) * (1_000_000 - fee)
                        / 1_000_000
                }
        },
{
    let (volatile, stable) = by_role(v.vol0(), v.idle0, v.idle1);
    worth_is_amount_at_price(v.vol0(), volatile, price);
    let worth = to_stable(v.vol0(), volatile, price);
    let diff = worth - stable;
    let denom = 2_000_000 - fee;
    small(2_000_000);
    small(denom);
    small(1_000_000 - fee);
    assert(diff * 1_000_000 <= diff * denom) by (nonlinear_arith)
        requires
            diff >= 0,
            denom >= 1_000_000,
    ;
    ceil_facts(diff, 1_000_000, denom, diff);
    let amount = ceil_mul_div(diff, 1_000_000, denom)->0;
    assert(amount * denom == amount * 1_000_000 + amount * (1_000_000 - fee) && (amount - 1) * denom
        == amount * denom - denom) by (nonlinear_arith)
        requires
            denom == 2_000_000 - fee,
    ;
    stable_amount_buys(v.vol0(), amount, price);
    let sold = smaller(to_volatile(v.vol0(), amount, price), volatile);
    worth_is_amount_at_price(v.vol0(), sold, price);
    let back = to_stable(v.vol0(), sold, price);
    assert(back <= worth) by (nonlinear_arith)
        requires
            sold <= volatile,
            0 < price,
            v.vol0() ==> back * one_wad() <= sold * price && volatile * price < (worth + 1)
                * one_wad(),
            !v.vol0() ==> back * price <= sold * one_wad() && volatile * one_wad() < (worth + 1)
                * price,
    ;
    assert(0 <= back * (1_000_000 - fee) && back * (1_000_000 - fee) <= back * 1_000_000)
        by (nonlinear_arith)
        requires
            back >= 0,
            0 <= fee <= 1_000_000,
    ;
    floor_facts(back, 1_000_000 - fee, 1_000_000, p128() + 1);
    small(volatile - sold);
    let got = floor_mul_div(back, 1_000_000 - fee, 1_000_000);
    small(stable + got);
    if evened(v, price, fee) != Some(v) {
        assert(to_volatile(v.vol0(), amount, price) >= sold);
    }
}

// ── beside the price ──

/// What is left idle is placed on the side of the price that takes more of it.
pub proof fn limit_takes_larger_side(v: VaultView, p: PoolView, floor: int, ceil: int)
    requires
        v.params.limit_threshold > 0,
    ensures
        limit_side(v, p, floor, ceil) matches Some((lower, upper, l)) ==> ({
            let t = v.params.limit_threshold as int;
            let below = max_liquidity(p.price, floor - t, floor, v.idle0, v.idle1)->0;
            let above = max_liquidity(p.price, ceil, ceil + t, v.idle0, v.idle1)->0;
            &&& l >= below && l >= above
            &&& lower == floor - t && upper == floor && l == below || lower == ceil && upper == ceil
                + t && l == above
            &&& below == above && floor < ceil ==> lower == ceil
        }),
{
}

/// Rebuilding gives up all ranges, evens out what is idle and places it anew: no range of
/// before is left, and each one stands where the price says.
#[verifier::rlimit(30)]
pub proof fn rebuilding_places_anew(v: VaultView, p: PoolView, fee: int)
    ensures
        rebuilt(v, p, fee) matches Some((w, q)) ==> {
            &&& emptied(v, p) matches Some((x, u)) && (evened(x, price_of(p.price), fee) matches Some(y)
                && rebalanced(y, u) == Some((w, q)))
            &&& w.base is None || reaches(
                w.base,
                p.tick,
                v.spacing,
                v.params.base_threshold as int,
            )
            &&& w.wide is None || reaches(
                w.wide,
                p.tick,
                v.spacing,
                v.params.wide_threshold as int,
            )
            &&& w.limit is None || stands_beside(
                w.limit,
                p.tick,
                v.spacing,
                v.params.limit_threshold as int,
            )
        },
{
    withdrawal_moves_holdings(v, p);
    if let Some((x, u)) = emptied(v, p) {
        if let Some(y) = evened(x, price_of(u.price), fee) {
            ranges_are_placed_around_price(y, u);
        }
    }
}

} // verus!
