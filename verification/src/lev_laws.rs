//! What the leverage market maker is for: a debt for the target at the start, and then
//! trades along its curve, as large as one step allows, that pay for their costs and leave
//! their fee in the vault.
use crate::arith::{div_facts, p128, p192, p256, p64};
use crate::arb_laws::root_is_square_root;
use crate::debt_laws::{ceil_facts, floor_facts, p100, p76, small};
use crate::full_math::{ceil_mul_div, floor_mul_div};
use crate::lev_model::{
    capped_trade, lev_applied, lev_bounds, lev_burn, lev_burned, lev_mint, lev_minted,
    lev_minted_slot, lev_quote, lev_run, lev_started, lev_step, lev_traded, Bounds, LevTerms, Quote,
};
use crate::pool_model::PoolView;
use crate::share_laws::cap_lowers_liquidity;
use crate::vault_math::{
    acquire_cost, acquire_cost_unit, by_role, capped_liquidity, curve_collateral,
    curve_collateral_at, curve_debt, curve_ratio, curve_x0, max_liquidity, one_wad, price_of, root,
    stable_value, to_stable, to_volatile, unwind_proceeds, unwind_proceeds_unit, value_split, wadd,
    wsub,
};
use crate::vault_model::{
    emptied, minted_range, totals_at, unwound, LevAmmOpMode, RangeView, Slot, VaultView,
};
use crate::value_laws::{ranges_are_placed_around_price, reaches, stands_beside};
use crate::vault_laws::{rebalance_moves_holdings, withdrawal_moves_holdings};
use vstd::prelude::*;

verus! {

/// 2^68, above every value that the laws of the curve speak of.
#[verifier::inline]
pub open spec fn p68() -> int {
    0x10_0000_0000_0000_0000int
}

// ── the curve ──

/// The ratio of the curve is `c^2 / (c + 1)^2` for a target `c`, in units of 10^18, rounded
/// down.
pub proof fn curve_ratio_is_square(tc: int)
    requires
        0 < tc < p100(),
    ensures
        curve_ratio(tc) matches Some(r) && {
            let d = tc + 1_000_000_000_000_000_000;
            &&& 0 <= r < 1_000_000_000_000_000_000
            &&& r * (d * d) <= tc * tc * 1_000_000_000_000_000_000
            &&& tc * tc * 1_000_000_000_000_000_000 < (r + 1) * (d * d)
        },
{
    let d = tc + one_wad();
    small(d);
    let t2 = tc * tc;
    let d2 = d * d;
    assert(0 < t2 < d2 && d2 < p256()) by (nonlinear_arith)
        requires
            t2 == tc * tc,
            d2 == d * d,
            0 < tc < d,
            d < 2 * p100(),
    ;
    small(t2);
    small(d2);
    assert(t2 * one_wad() < one_wad() * d2);
    floor_facts(t2, one_wad(), d2, one_wad());
}

/// The size of the curve is the larger root of `ratio * x^2 - coll * x + coll * debt`,
/// rounded down.
#[verifier::rlimit(30)]
pub proof fn curve_goes_through_start(coll: int, debt: int, ratio: int)
    requires
        0 < coll < p68(),
        0 <= debt < p68(),
        0 < ratio < 1_000_000_000_000_000_000,
        4 * ratio * debt <= coll * 1_000_000_000_000_000_000,
    ensures
        curve_x0(coll, debt, ratio) matches Some(x) && {
            let w = 1_000_000_000_000_000_000 * coll;
            let disc = w * w - 4 * ratio * debt * w;
            let low = 2 * ratio * x - w;
            let high = 2 * ratio * (x + 1) - w;
            &&& 0 <= x
            &&& low <= 0 || low * low <= disc
            &&& high > 0 && disc < high * high
        },
{
    let one = one_wad();
    let w = one * coll;
    let w2 = w * w;
    let m = 4 * ratio * debt * w;
    let disc = w2 - m;
    assert(0 < w < p128() && 0 < w2 < p256() - 1) by (nonlinear_arith)
        requires
            w == one * coll,
            w2 == w * w,
            0 < coll < p68(),
            one == one_wad(),
    ;
    assert(0 <= m <= w2) by (nonlinear_arith)
        requires
            m == 4 * ratio * debt * w,
            w2 == w * w,
            0 <= ratio,
            0 <= debt,
            4 * ratio * debt <= w,
            w > 0,
    ;
    let a = 4 * ratio;
    let b = a * one;
    let c = b * coll;
    let e = c * debt;
    assert(e == m && 0 <= b && 0 <= c && 0 <= a * one < p256() && 0 <= b * coll < p256())
        by (nonlinear_arith)
        requires
            a == 4 * ratio,
            b == a * one,
            c == b * coll,
            e == c * debt,
            m == 4 * ratio * debt * w,
            w == one * coll,
            one == one_wad(),
            0 < ratio < one_wad(),
            0 < coll < p68(),
            0 <= debt,
    ;
    small(w);
    small(w2);
    small(a);
    small(b);
    small(c);
    small(e);
    small(disc);
    root_is_square_root(disc);
    let r = root(disc);
    assert(r < p128()) by (nonlinear_arith)
        requires
            r * r <= disc,
            disc < p256(),
            0 <= r,
    ;
    small(w + r);
    let k = 2 * ratio;
    small(k);
    div_facts(w + r, k);
    let x = (w + r) / k;
    assert(k * x == 2 * ratio * x && k * (x + 1) == 2 * ratio * (x + 1) && k * (x + 1) == k * x + k
        && x * k == k * x) by (nonlinear_arith)
        requires
            k == 2 * ratio,
    ;
    assert(0 <= x) by (nonlinear_arith)
        requires
            w + r == x * k + (w + r) % k,
            (w + r) % k < k,
            w + r >= 0,
            k > 0,
    ;
    let low = k * x - w;
    let high = k * (x + 1) - w;
    assert(low <= r && r < high);
    assert(low <= 0 || low * low <= disc) by (nonlinear_arith)
        requires
            low <= r,
            r * r <= disc,
            0 <= r,
    ;
    assert(disc < high * high) by (nonlinear_arith)
        requires
            r + 1 <= high,
            disc < (r + 1) * (r + 1),
            0 <= r,
    ;
}

/// The debt on the curve leaves `ratio * x^2` over the collateral value of its size,
/// rounded down.
pub proof fn debt_lies_on_curve(ratio: int, x0: int, coll: int)
    requires
        0 < ratio < 1_000_000_000_000_000_000,
        0 < x0 < p76(),
        0 < coll < p76(),
    ensures
        curve_debt(ratio, x0, coll) matches Some(d) && {
            let area = ratio * (x0 * x0);
            let unit = 1_000_000_000_000_000_000 * coll;
            &&& 0 <= d <= x0
            &&& d > 0 ==> (x0 - d) * unit <= area && area < (x0 - d + 1) * unit
            &&& d == 0 ==> x0 * unit <= area
        },
{
    let s = x0 * x0;
    let unit = one_wad() * coll;
    assert(0 < s < p192() && ratio * s < p256() * unit && 0 < unit < p256()) by (nonlinear_arith)
        requires
            s == x0 * x0,
            0 < x0 < p76(),
            0 < ratio < one_wad(),
            unit == one_wad() * coll,
            0 < coll < p76(),
    ;
    small(s);
    small(unit);
    floor_facts(ratio, s, unit, p256());
    let offset = floor_mul_div(ratio, s, unit);
    if offset >= x0 {
        assert(x0 * unit <= offset * unit) by (nonlinear_arith)
            requires
                x0 <= offset,
                unit > 0,
        ;
    }
}

/// The collateral value on the curve at a debt is `ratio * x^2` over what the debt leaves of
/// its size, rounded up; none where the debt leaves nothing.
pub proof fn collateral_lies_on_curve(ratio: int, x0: int, debt: int)
    requires
        0 < ratio < 1_000_000_000_000_000_000,
        0 < x0 < p76(),
        0 <= debt,
    ensures
        ({
            let c = curve_collateral(ratio, x0, debt);
            let area = ratio * x0 * x0;
            let unit = 1_000_000_000_000_000_000 * (x0 - debt);
            &&& x0 <= debt ==> c == 0
            &&& x0 > debt ==> c * unit >= area && (c - 1) * unit < area
        }),
{
    if x0 > debt {
        let a = ratio * x0;
        let n = a * x0;
        let unit = one_wad() * (x0 - debt);
        assert(0 < a < p192() && 0 < n < p256() && 0 < unit < p256()) by (nonlinear_arith)
            requires
                a == ratio * x0,
                n == a * x0,
                0 < x0 < p76(),
                0 < ratio < one_wad(),
                unit == one_wad() * (x0 - debt),
                0 < x0 - debt <= x0,
        ;
        small(a);
        small(n);
        small(unit);
        div_facts(n, unit);
        let q = n / unit;
        assert((q + 1) * unit == q * unit + unit && (q - 1) * unit == q * unit - unit)
            by (nonlinear_arith);
    }
}

// ── what a trade costs ──

/// Holdings of a value cost their stable part and what buys the rest with the fee, rounded
/// up. The stable part is that of the holdings, rounded down.
pub proof fn acquiring_pays_fee_on_volatile_part(value: int, stable: int, total: int, fee: int)
    requires
        0 < value < p128(),
        0 <= stable <= total,
        0 < total < p128(),
        0 <= fee < 1_000_000,
    ensures
        acquire_cost(value, stable, total, fee) matches Some(c) && {
            let s = value * stable / total;
            let left = 1_000_000 - fee;
            &&& (c - s) * left >= (value - s) * 1_000_000
            &&& (c - s - 1) * left < (value - s) * 1_000_000
        },
{
    value_is_split_like_holdings(value, stable, total);
    let s = value * stable / total;
    let left = 1_000_000 - fee;
    small(left);
    let rest = value - s;
    assert(rest * 1_000_000 <= (rest * 1_000_000) * left) by (nonlinear_arith)
        requires
            0 <= rest,
            left >= 1,
    ;
    ceil_facts(rest, 1_000_000, left, rest * 1_000_000);
    small(s + ceil_mul_div(rest, 1_000_000, left)->0);
}

/// Holdings of a value give back their stable part and the rest less the fee, rounded down.
pub proof fn unwinding_pays_fee_on_volatile_part(value: int, stable: int, total: int, fee: int)
    requires
        0 < value < p128(),
        0 <= stable <= total,
        0 < total < p128(),
        0 <= fee <= 1_000_000,
    ensures
        ({
            let s = value * stable / total;
            let left = 1_000_000 - fee;
            let got = unwind_proceeds(value, stable, total, fee);
            &&& (got - s) * 1_000_000 <= (value - s) * left
            &&& (value - s) * left < (got - s + 1) * 1_000_000
        }),
{
    value_is_split_like_holdings(value, stable, total);
    let s = value * stable / total;
    let left = 1_000_000 - fee;
    small(left);
    let rest = value - s;
    assert(0 <= rest * left <= rest * 1_000_000) by (nonlinear_arith)
        requires
            0 <= rest,
            0 <= left <= 1_000_000,
    ;
    floor_facts(rest, left, 1_000_000, p128() + 1);
    small(s + floor_mul_div(rest, left, 1_000_000));
}

/// A value is split like the holdings: its stable part is the part that the stable holdings
/// are of all, rounded down.
pub proof fn value_is_split_like_holdings(value: int, stable: int, total: int)
    requires
        0 < value < p128(),
        0 <= stable <= total,
        0 < total < p128(),
    ensures
        crate::vault_math::value_split(value, stable, total) == (
            value * stable / total,
            value - value * stable / total,
        ),
        0 <= value * stable / total <= value,
{
    assert(0 <= value * stable <= value * total) by (nonlinear_arith)
        requires
            0 < value,
            0 <= stable <= total,
    ;
    assert(value * total < (value + 1) * total) by (nonlinear_arith)
        requires
            0 < total,
    ;
    floor_facts(value, stable, total, value + 1);
    if stable == 0 {
        assert(value * stable == 0);
        vstd::arithmetic::div_mod::lemma_div_basics_1(total);
    }
}

/// The collateral value at a price is where the square of it times the price is
/// `ratio * x^2`: rounded down, or up where that is asked for.
#[verifier::rlimit(30)]
pub proof fn collateral_at_price_lies_on_curve(ratio: int, x0: int, price: int, up: bool)
    requires
        0 < ratio < 1_000_000_000_000_000_000,
        0 < x0 < p76(),
        0 < price,
    ensures
        curve_collateral_at(ratio, x0, price, up) matches Some(c) && {
            let area = ratio * (x0 * x0);
            &&& 0 <= c
            &&& !up ==> c * c * price <= area && area < (c + 1) * (c + 1) * price
            &&& up ==> (c * c + 1) * price > area && (c > 0 ==> (c - 1) * (c - 1) * price < area)
        },
{
    let s = x0 * x0;
    assert(0 < s < p192() && 0 < ratio * s && ratio * s < (p256() - 1) * price) by (nonlinear_arith)
        requires
            s == x0 * x0,
            0 < x0 < p76(),
            0 < ratio < one_wad(),
            price >= 1,
    ;
    small(s);
    floor_facts(ratio, s, price, p256() - 1);
    let m = floor_mul_div(ratio, s, price);
    root_is_square_root(m);
    let r = root(m);
    assert(r < p128()) by (nonlinear_arith)
        requires
            r * r <= m,
            m < p256(),
            0 <= r,
    ;
    assert(0 <= r * r) by (nonlinear_arith);
    small(r * r);
    small(r + 1);
    let area = ratio * s;
    assert(r * r * price <= area) by (nonlinear_arith)
        requires
            r * r <= m,
            m * price <= area,
            price > 0,
    ;
    assert(area < (r + 1) * (r + 1) * price) by (nonlinear_arith)
        requires
            m + 1 <= (r + 1) * (r + 1),
            area < (m + 1) * price,
            price > 0,
    ;
    if up && r * r < m {
        let c = r + 1;
        assert((c * c + 1) * price > area) by (nonlinear_arith)
            requires
                area < (r + 1) * (r + 1) * price,
                c == r + 1,
                price > 0,
        ;
        assert((c - 1) * (c - 1) * price < area) by (nonlinear_arith)
            requires
                r * r + 1 <= m,
                m * price <= area,
                c == r + 1,
                price > 0,
        ;
    } else if up {
        assert((r * r + 1) * price > area) by (nonlinear_arith)
            requires
                r * r >= m,
                area < (m + 1) * price,
                price > 0,
        ;
        if r > 0 {
            assert((r - 1) * (r - 1) * price < area) by (nonlinear_arith)
                requires
                    r * r * price <= area,
                    r > 0,
                    price > 0,
            ;
        }
    }
}

/// One unit of the holdings, of which `s` is stable, costs `s` and what buys the rest with
/// the fee, rounded up; it gives back `s` and the rest less the fee, rounded down.
pub proof fn unit_pays_fee_on_volatile_part(stable: int, total: int, fee: int)
    requires
        0 <= stable <= total,
        0 < total < p128(),
        0 <= fee < 1_000_000,
    ensures
        ({
            let one = 1_000_000_000_000_000_000int;
            let s = stable * one / total;
            let left = 1_000_000 - fee;
            let got = unwind_proceeds_unit(stable, total, fee);
            &&& 0 <= s <= one
            &&& acquire_cost_unit(stable, total, fee) matches Some(c) && (c - s) * left >= (one - s)
                * 1_000_000 && (c - s - 1) * left < (one - s) * 1_000_000
            &&& (got - s) * 1_000_000 <= (one - s) * left
            &&& (one - s) * left < (got - s + 1) * 1_000_000
        }),
{
    let one = one_wad();
    let left = 1_000_000 - fee;
    small(left);
    assert(0 <= stable * one && stable * one < (one + 1) * total) by (nonlinear_arith)
        requires
            0 <= stable <= total,
            total > 0,
            one == one_wad(),
    ;
    floor_facts(stable, one, total, one + 1);
    if stable == 0 {
        assert(stable * one == 0);
        vstd::arithmetic::div_mod::lemma_div_basics_1(total);
    }
    let s = stable * one / total;
    let rest = one - s;
    assert(rest * 1_000_000 <= (rest * 1_000_000) * left && 0 <= rest * left <= rest * 1_000_000)
        by (nonlinear_arith)
        requires
            0 <= rest,
            1 <= left <= 1_000_000,
    ;
    ceil_facts(rest, 1_000_000, left, rest * 1_000_000);
    floor_facts(rest, left, 1_000_000, rest + 1);
    small(s + ceil_mul_div(rest, 1_000_000, left)->0);
    small(s + floor_mul_div(rest, left, 1_000_000));
}

/// The market maker sells at what a unit of the holdings costs, with its own fee on top, and
/// buys at what a unit gives back, less its own fee.
#[verifier::rlimit(30)]
pub proof fn quote_includes_fee(debt: int, coll: int, stable: int, total: int, b: Bounds, fee: int)
    requires
        0 <= stable <= total,
        0 < total < p128(),
        0 <= fee < 1_000_000,
    ensures
        lev_quote(debt, coll, stable, total, b, fee) matches Some(q) ==> (q.x0 != 0 ==> {
            let cost = acquire_cost_unit(stable, total, fee)->0;
            let got = unwind_proceeds_unit(stable, total, fee);
            &&& q.sell * (1_000_000 - fee) >= cost * 1_000_000
            &&& (q.sell - 1) * (1_000_000 - fee) < cost * 1_000_000
            &&& q.buy * (1_000_000 + fee) <= got * 1_000_000
            &&& got * 1_000_000 < (q.buy + 1) * (1_000_000 + fee)
        }),
{
    reveal(lev_quote);
    unit_pays_fee_on_volatile_part(stable, total, fee);
    let one = one_wad();
    let s = stable * one / total;
    let left = 1_000_000 - fee;
    let cost = acquire_cost_unit(stable, total, fee)->0;
    let got = unwind_proceeds_unit(stable, total, fee);
    small(left);
    small(1_000_000 + fee);
    assert(0 <= cost < p128() && 0 <= got < p128()) by {
        assert(cost >= s) by (nonlinear_arith)
            requires
                (cost - s) * left >= (one - s) * 1_000_000,
                s <= one,
                left > 0,
        ;
        assert(cost - s - 1 < one * 1_000_000) by (nonlinear_arith)
            requires
                (cost - s - 1) * left < (one - s) * 1_000_000,
                0 <= s <= one,
                left >= 1,
                one == one_wad(),
        ;
        assert(got >= s) by (nonlinear_arith)
            requires
                (one - s) * left < (got - s + 1) * 1_000_000,
                0 <= (one - s) * left,
        ;
        assert(got <= one) by (nonlinear_arith)
            requires
                (got - s) * 1_000_000 <= (one - s) * left,
                s <= one,
                0 < left <= 1_000_000,
        ;
    }
    assert(cost * 1_000_000 <= (cost * 1_000_000) * left) by (nonlinear_arith)
        requires
            0 <= cost,
            left >= 1,
    ;
    ceil_facts(cost, 1_000_000, left, cost * 1_000_000);
    assert(got * 1_000_000 < (got + 1) * (1_000_000 + fee)) by (nonlinear_arith)
        requires
            0 <= got,
            0 <= fee,
    ;
    floor_facts(got, 1_000_000, 1_000_000 + fee, got + 1);
}

// ── the first step ──

/// The first step borrows for the volatile holdings as much as the target says: their value
/// times the target less one, rounded down. Holdings and loan together are the collateral,
/// and the loan is idle in stable tokens.
#[verifier::rlimit(30)]
pub proof fn first_lev_step_borrows_for_target(
    v: VaultView,
    t0: int,
    t1: int,
    price: int,
    t: LevTerms,
    tc: int,
)
    requires
        v.pending is None,
        v.notional == 0,
        0 <= v.debt < p76(),
        0 <= v.idle0 < p76(),
        0 <= v.idle1 < p76(),
        0 <= t0 < p76(),
        0 <= t1 < p76(),
        1_000_000_000_000_000_000 < tc < p100(),
        ({
            let volatile = if v.vol0() {
                t0
            } else {
                t1
            };
            0 <= to_stable(v.vol0(), volatile, price) < p76()
        }),
    ensures
        lev_step(v, t0, t1, price, t, tc) matches Some((w, fee)) && {
            let (volatile, stable) = if v.vol0() {
                (t0, t1)
            } else {
                (t1, t0)
            };
            let worth = to_stable(v.vol0(), volatile, price);
            let loan = w.debt - v.debt;
            let one = 1_000_000_000_000_000_000int;
            &&& fee == 0
            &&& 0 <= loan
            &&& loan * one <= worth * (tc - one)
            &&& worth * (tc - one) < (loan + 1) * one
            &&& loan == 0 ==> w == v
            &&& loan > 0 ==> {
                &&& w.notional == stable + worth + loan
                &&& w.collateral == stable + worth + loan
                &&& w.pending == Some(LevAmmOpMode::Mint)
                &&& w.pending_init
                &&& v.vol0() ==> w.idle1 == v.idle1 + loan && w.idle0 == v.idle0
                &&& !v.vol0() ==> w.idle0 == v.idle0 + loan && w.idle1 == v.idle1
            }
        },
{
    reveal(lev_step);
    reveal(lev_started);
    let (volatile, stable) = by_role(v.vol0(), t0, t1);
    let worth = to_stable(v.vol0(), volatile, price);
    let total = stable + worth;
    small(total);
    let up = tc - one_wad();
    assert(0 <= worth * up < p192() * one_wad()) by (nonlinear_arith)
        requires
            0 <= worth < p76(),
            0 < up < p100(),
    ;
    floor_facts(worth, up, one_wad(), p192());
    let amount = floor_mul_div(worth, up, one_wad());
    small(v.debt + amount);
    small(total + amount);
    if v.vol0() {
        small(v.idle1 + amount);
    } else {
        small(v.idle0 + amount);
    }
    if total == 0 {
        assert(worth * up == 0) by (nonlinear_arith)
            requires
                worth == 0,
        ;
    }
    let (w, fee) = lev_step(v, t0, t1, price, t, tc)->0;
    assert(total != 0 && amount != 0 ==> w.debt == v.debt + amount);
    assert(total == 0 || amount == 0 ==> w == v);
}

// ── later steps ──

/// A trade is no larger than the part of the collateral that one step allows.
proof fn cap_facts(coll: int, wanted: int, cap: Option<int>)
    requires
        0 <= coll < p128(),
        cap matches Some(m) ==> 0 <= m < p64(),
    ensures
        cap matches Some(m) ==> capped_trade(coll, wanted, cap) * 1_000_000 <= coll * m,
        capped_trade(coll, wanted, cap) <= wanted,
        cap is None ==> capped_trade(coll, wanted, cap) == wanted,
        cap matches Some(m) ==> capped_trade(coll, wanted, cap) == wanted || coll * m < (
        capped_trade(coll, wanted, cap) + 1) * 1_000_000,
{
    if let Some(m) = cap {
        let n = coll * m;
        assert(0 <= n < p256()) by (nonlinear_arith)
            requires
                n == coll * m,
                0 <= coll < p128(),
                0 <= m < p64(),
        ;
        small(n);
    }
}

/// A trade that adds debt comes to the debt on the curve for the larger collateral value. It
/// is no larger than one step allows, its fee is the part of the new debt that the settings
/// say, rounded down, and what it leaves is more than the trade costs. The fee is revenue
/// and idle; what is bought is in the proportion of the holdings.
#[verifier::rlimit(30)]
pub proof fn lev_mint_pays(v: VaultView, q: Quote, t: LevTerms, price: int)
    requires
        v.pending is None,
        0 <= q.coll < p128(),
        0 <= v.debt < p128(),
        0 <= t.fee < 1_000_000,
        t.cap matches Some(m) ==> 0 <= m < p64(),
    ensures
        lev_mint(v, q, t, price) matches Some((w, fee)) ==> (w.pending is None ==> w == v && fee
            == 0) && (w.pending is Some && w.debt < p128() ==> {
            let trade = w.pending_trade;
            let principal = w.debt - v.debt;
            &&& w.pending == Some(LevAmmOpMode::Mint)
            &&& trade != 0
            &&& principal > 0
            &&& curve_debt(q.ratio, q.x0, wadd(q.coll, trade)) == Some(w.debt)
            &&& t.cap matches Some(m) ==> trade * 1_000_000 <= q.coll * m
            &&& 0 <= fee
            &&& fee * 1_000_000 <= principal * t.fee
            &&& principal * t.fee < (fee + 1) * 1_000_000
            &&& acquire_cost(trade, q.stable, q.total, t.fee) matches Some(cost) && cost < principal
                - fee
            &&& w.revenue == wadd(v.revenue, fee)
            &&& v.vol0() ==> w.idle1 == wadd(v.idle1, fee) && w.idle0 == v.idle0
            &&& !v.vol0() ==> w.idle0 == wadd(v.idle0, fee) && w.idle1 == v.idle1
            &&& w.supply == v.supply && w.notional == v.notional && w.collateral == v.collateral
        }),
{
    reveal(lev_mint);
    if let Some(goal) = crate::lev_model::mint_goal(q) {
        cap_facts(q.coll, goal - q.coll, t.cap);
    }
    if let Some((w, fee)) = lev_mint(v, q, t, price) {
        if w.pending is Some && w.debt < p128() {
            let principal = w.debt - v.debt;
            assert(0 <= principal * t.fee < p128() * 1_000_000) by (nonlinear_arith)
                requires
                    0 <= principal < p128(),
                    0 <= t.fee < 1_000_000,
            ;
            floor_facts(principal, t.fee, 1_000_000, p128());
        }
    }
}

/// A trade that adds debt goes as far as the price on the curve is the one it sells at, and
/// no further than where the debt is the most that the market maker bears; all the way where
/// no step is limited. What it buys is split like the holdings, the rest of the value
/// exchanged at the price.
pub proof fn lev_mint_goes_to_quoted_price(v: VaultView, q: Quote, t: LevTerms, price: int)
    requires
        v.pending is None,
        0 <= q.coll < p128(),
        t.cap matches Some(m) ==> 0 <= m < p64(),
    ensures
        lev_mint(v, q, t, price) matches Some((w, fee)) ==> (w.pending is Some ==> {
            let trade = w.pending_trade;
            let at = curve_collateral_at(q.ratio, q.x0, q.sell, true)->0;
            let last = curve_collateral(q.ratio, q.x0, q.most);
            let (s, rest) = value_split(trade, q.stable, q.total);
            &&& at != 0 ==> q.coll + trade <= at
            &&& last != 0 ==> q.coll + trade <= last
            &&& t.cap is None ==> q.coll + trade == at || q.coll + trade == last
            &&& v.vol0() ==> w.pending1 == s && w.pending0 == to_volatile(true, rest, price)
            &&& !v.vol0() ==> w.pending0 == s && w.pending1 == to_volatile(false, rest, price)
        }),
{
    reveal(lev_mint);
    if let Some(goal) = crate::lev_model::mint_goal(q) {
        cap_facts(q.coll, goal - q.coll, t.cap);
    }
}

/// A trade that pays debt off goes as far as the price on the curve is the one it buys at,
/// and no further than where the debt is the least that the market maker keeps; all the way
/// where no step is limited.
pub proof fn lev_burn_goes_to_quoted_price(v: VaultView, q: Quote, t: LevTerms)
    requires
        v.pending is None,
        0 <= q.coll < p128(),
        t.cap matches Some(m) ==> 0 <= m < p64(),
    ensures
        lev_burn(v, q, t) matches Some((w, fee)) ==> (w.pending is Some ==> {
            let trade = w.pending_trade;
            let at = curve_collateral_at(q.ratio, q.x0, q.buy, false)->0;
            let last = curve_collateral(q.ratio, q.x0, q.least);
            &&& at != 0 ==> q.coll - trade >= at
            &&& last != 0 ==> q.coll - trade >= last
            &&& t.cap is None ==> q.coll - trade == at || q.coll - trade == last
        }),
{
    reveal(lev_burn);
    if let Some(goal) = crate::lev_model::burn_goal(q) {
        cap_facts(q.coll, q.coll - goal, t.cap);
    }
}

/// A trade that pays debt off comes to the debt on the curve for the smaller collateral
/// value, but not below the least one. It is no larger than one step allows, its fee is the
/// part of the debt paid that the settings say, rounded down, and what unwinding gives is
/// more than both.
#[verifier::rlimit(30)]
pub proof fn lev_burn_pays(v: VaultView, q: Quote, t: LevTerms)
    requires
        v.pending is None,
        0 <= q.coll < p128(),
        0 <= v.debt < p128(),
        0 <= q.least,
        0 <= t.fee < 1_000_000,
        t.cap matches Some(m) ==> 0 <= m < p64(),
    ensures
        lev_burn(v, q, t) matches Some((w, fee)) ==> (w.pending is None ==> w == v && fee == 0) && (
        w.pending is Some ==> {
            let trade = w.pending_trade;
            let principal = v.debt - w.debt;
            &&& w.pending == Some(LevAmmOpMode::Burn)
            &&& trade != 0
            &&& principal > 0
            &&& w.debt >= q.least
            &&& w.debt == q.least || curve_debt(q.ratio, q.x0, wsub(q.coll, trade)) == Some(w.debt)
            &&& t.cap matches Some(m) ==> trade * 1_000_000 <= q.coll * m
            &&& 0 <= fee
            &&& fee * 1_000_000 <= principal * t.fee
            &&& principal * t.fee < (fee + 1) * 1_000_000
            &&& unwind_proceeds(trade, q.stable, q.total, t.fee) > principal + fee
            &&& w.revenue == wadd(v.revenue, fee)
            &&& v.vol0() ==> w.idle1 == wadd(v.idle1, fee) && w.idle0 == v.idle0
            &&& !v.vol0() ==> w.idle0 == wadd(v.idle0, fee) && w.idle1 == v.idle1
            &&& w.supply == v.supply && w.notional == v.notional && w.collateral == v.collateral
        }),
{
    reveal(lev_burn);
    if let Some(goal) = crate::lev_model::burn_goal(q) {
        cap_facts(q.coll, q.coll - goal, t.cap);
    }
    if let Some((w, fee)) = lev_burn(v, q, t) {
        if w.pending is Some {
            let principal = v.debt - w.debt;
            assert(0 <= principal * t.fee < p128() * 1_000_000) by (nonlinear_arith)
                requires
                    0 <= principal < p128(),
                    0 <= t.fee < 1_000_000,
            ;
            floor_facts(principal, t.fee, 1_000_000, p128());
            small(principal + fee);
        }
    }
}

/// What the market maker stays between: it is insolvent where the debt is more than the
/// curve bears, a quarter of the collateral over the ratio, and still less than the target
/// asks for.
pub proof fn lev_bounds_are_a_quarter(coll: int, tc: int)
    requires
        0 <= coll < p128(),
        1_000_000_000_000_000_000 < tc < p100(),
    ensures
        lev_bounds(coll, tc) matches Some(b) && {
            let value = coll * 1_000_000_000_000_000_000;
            &&& Some(b.ratio) == curve_ratio(tc)
            &&& b.ratio > 0
            &&& b.goal * tc <= value && value < (b.goal + 1) * tc
            &&& b.limit * (4 * b.ratio) <= value && value < (b.limit + 1) * (4 * b.ratio)
        },
{
    reveal(lev_bounds);
    curve_ratio_is_square(tc);
    let r = curve_ratio(tc)->0;
    let d = tc + one_wad();
    assert(r > 0) by (nonlinear_arith)
        requires
            tc * tc * one_wad() < (r + 1) * (d * d),
            d == tc + one_wad(),
            one_wad() < tc,
            r >= 0,
    ;
    small(4 * r);
    assert(coll * one_wad() < p256() * (4 * r) && coll * one_wad() < p256() * tc)
        by (nonlinear_arith)
        requires
            0 <= coll < p128(),
            r >= 1,
            tc >= 1,
    ;
    floor_facts(coll, one_wad(), 4 * r, p256());
    floor_facts(coll, one_wad(), tc, p256());
}

/// The market maker trades by its quote: while it is insolvent it only says so; otherwise it
/// adds debt below the most that it bears and pays debt off at or above that, on a curve
/// through its present collateral and debt.
#[verifier::rlimit(30)]
pub proof fn lev_trades_by_quote(
    v: VaultView,
    coll: int,
    stable: int,
    total: int,
    price: int,
    t: LevTerms,
    tc: int,
)
    requires
        v.pending is None,
    ensures
        lev_traded(v, coll, stable, total, price, t, tc) matches Some((w, fee)) ==> ({
            let b = lev_bounds(coll, tc)->0;
            let q = lev_quote(v.debt, coll, stable, total, b, t.fee)->0;
            &&& b.ratio != 0 && b.limit < v.debt < b.goal ==> w == (VaultView {
                insolvent: true,
                ..v
            }) && fee == 0
            &&& v.debt <= b.limit && b.ratio != 0 ==> !w.insolvent
            &&& w.pending is Some ==> {
                &&& q.coll == coll && q.stable == stable && q.total == total && q.ratio == b.ratio
                &&& curve_x0(
                    coll,
                    if v.debt <= b.limit {
                        v.debt
                    } else {
                        b.limit
                    },
                    b.ratio,
                ) == Some(q.x0)
                &&& q.least == b.goal / 8
                &&& q.most == (if b.limit > coll / 32 {
                    b.limit - coll / 32
                } else {
                    b.limit
                })
                &&& w.pending == Some(LevAmmOpMode::Mint) ==> v.debt < q.most
                &&& w.pending == Some(LevAmmOpMode::Burn) ==> v.debt >= q.most && v.debt > q.least
            }
        }),
{
    reveal(lev_traded);
    reveal(lev_quote);
    reveal(lev_mint);
    reveal(lev_burn);
}

/// The collateral value that the market maker trades on is the part of the holdings that its
/// collateral is of its notional, rounded down twice.
pub proof fn lev_collateral_follows_holdings(
    v: VaultView,
    t0: int,
    t1: int,
    price: int,
    t: LevTerms,
    tc: int,
)
    requires
        v.pending is None,
        0 < v.notional < p76(),
        0 <= v.collateral < p76(),
        0 < stable_value(v.vol0(), t0, t1, price) < p76(),
        1_000_000_000_000_000_000 < tc,
    ensures
        ({
            let total = stable_value(v.vol0(), t0, t1, price);
            let stable = if v.vol0() {
                t1
            } else {
                t0
            };
            let unit = total * 1_000_000_000_000_000_000 / v.notional;
            let coll = unit * v.collateral / 1_000_000_000_000_000_000;
            lev_step(v, t0, t1, price, t, tc) == (if coll == 0 {
                Some((v, 0int))
            } else {
                lev_traded(v, coll, stable, total, price, t, tc)
            })
        }),
{
    reveal(lev_step);
    let total = stable_value(v.vol0(), t0, t1, price);
    assert(total * one_wad() < (p76() * one_wad()) * v.notional) by (nonlinear_arith)
        requires
            0 < total < p76(),
            v.notional >= 1,
    ;
    floor_facts(total, one_wad(), v.notional, p76() * one_wad());
    let unit = floor_mul_div(total, one_wad(), v.notional);
    assert(0 <= unit * v.collateral < p256() * one_wad()) by (nonlinear_arith)
        requires
            0 <= unit < p76() * one_wad(),
            0 <= v.collateral < p76(),
    ;
    floor_facts(unit, v.collateral, one_wad(), p256());
    if v.collateral == 0 || unit == 0 {
        assert(unit * v.collateral == 0) by (nonlinear_arith)
            requires
                v.collateral == 0 || unit == 0,
        ;
    }
}

// ── carrying out ──

/// A range that amounts were minted into: the same ticks and no less liquidity, and no more
/// of it than its part of the amounts buys, by its part of the liquidity in millionths.
pub open spec fn got_its_part(
    r: Option<RangeView>,
    x: Option<RangeView>,
    price: int,
    a0: int,
    a1: int,
    total: int,
) -> bool {
    match (r, x) {
        (Some(a), Some(b)) => {
            let part = a.liquidity * 1_000_000 / total;
            let l = b.liquidity - a.liquidity;
            &&& b.lower == a.lower && b.upper == a.upper
            &&& l >= 0
            &&& a.liquidity == 0 ==> l == 0
            &&& l == 0 || (max_liquidity(
                price,
                a.lower,
                a.upper,
                a0 * part / 1_000_000,
                a1 * part / 1_000_000,
            ) matches Some(most) && l <= most)
        },
        (None, None) => true,
        _ => false,
    }
}

/// No purchase of parts of two amounts in a range goes beyond 128 bits.
spec fn purchases_fit(price: int, r: Option<RangeView>, a0: int, a1: int) -> bool {
    r matches Some(x) ==> forall|f0: int, f1: int|
        0 <= f0 <= a0 && 0 <= f1 <= a1 ==> (#[trigger] max_liquidity(
            price,
            x.lower,
            x.upper,
            f0,
            f1,
        ) matches Some(m) ==> 0 <= m < p128())
}

#[verifier::rlimit(30)]
proof fn slot_gets_its_part(
    v: VaultView,
    p: PoolView,
    slot: Slot,
    a0: int,
    a1: int,
    total: int,
)
    requires
        0 <= a0 < p128(),
        0 <= a1 < p128(),
        0 <= v.idle0,
        0 <= v.idle1,
        v.range(slot) matches Some(r) ==> 0 <= r.liquidity <= total,
        0 < total < p128(),
        purchases_fit(p.price, v.range(slot), a0, a1),
    ensures
        lev_minted_slot(v, p, slot, a0, a1, total) matches Some((w, q)) ==> {
            &&& got_its_part(v.range(slot), w.range(slot), p.price, a0, a1, total)
            &&& slot != Slot::Wide ==> w.wide == v.wide
            &&& slot != Slot::Base ==> w.base == v.base
            &&& slot != Slot::Limit ==> w.limit == v.limit
            &&& q.price == p.price
            &&& 0 <= w.idle0 <= v.idle0
            &&& 0 <= w.idle1 <= v.idle1
        },
{
    reveal(lev_minted_slot);
    reveal(minted_range);
    if let Some(r) = v.range(slot) {
        assert(r.liquidity * 1_000_000 < 1_000_001 * total);
        floor_facts(r.liquidity, 1_000_000, total, 1_000_001);
        let part = floor_mul_div(r.liquidity, 1_000_000, total);
        assert(0 <= a0 * part <= a0 * 1_000_000 && 0 <= a1 * part <= a1 * 1_000_000)
            by (nonlinear_arith)
            requires
                0 <= a0,
                0 <= a1,
                0 <= part <= 1_000_000,
        ;
        floor_facts(a0, part, 1_000_000, a0 + 1);
        floor_facts(a1, part, 1_000_000, a1 + 1);
        let f0 = floor_mul_div(a0, part, 1_000_000);
        let f1 = floor_mul_div(a1, part, 1_000_000);
        if let Some(raw) = max_liquidity(p.price, r.lower, r.upper, f0, f1) {
            cap_lowers_liquidity(p.price, r.lower, r.upper, raw, v.idle0, v.idle1);
            if let Some(l) = capped_liquidity(p.price, r.lower, r.upper, raw, v.idle0, v.idle1) {
                small(r.liquidity + l);
            }
        }
    }
}

/// What a trade buys is added to what is idle and minted into the wide and the base range,
/// each by its part of their liquidity. The limit range gets nothing; without liquidity all
/// of it stays idle.
#[verifier::rlimit(30)]
pub proof fn lev_mint_goes_to_wide_and_base(v: VaultView, p: PoolView, a0: int, a1: int)
    requires
        0 <= a0 < p128(),
        0 <= a1 < p128(),
        0 <= v.idle0 < p128(),
        0 <= v.idle1 < p128(),
        v.wide matches Some(r) ==> 0 <= r.liquidity < p128() / 2,
        v.base matches Some(r) ==> 0 <= r.liquidity < p128() / 2,
        v.wide matches Some(x) ==> forall|f0: int, f1: int|
            0 <= f0 <= a0 && 0 <= f1 <= a1 ==> (#[trigger] max_liquidity(
                p.price,
                x.lower,
                x.upper,
                f0,
                f1,
            ) matches Some(m) ==> 0 <= m < p128()),
        v.base matches Some(x) ==> forall|f0: int, f1: int|
            0 <= f0 <= a0 && 0 <= f1 <= a1 ==> (#[trigger] max_liquidity(
                p.price,
                x.lower,
                x.upper,
                f0,
                f1,
            ) matches Some(m) ==> 0 <= m < p128()),
    ensures
        lev_minted(v, p, a0, a1) matches Some((w, q)) ==> {
            let total = (match v.wide {
                Some(r) => r.liquidity,
                None => 0,
            }) + (match v.base {
                Some(r) => r.liquidity,
                None => 0,
            });
            &&& w.limit == v.limit
            &&& w.idle0 <= v.idle0 + a0 && w.idle1 <= v.idle1 + a1
            &&& a0 == 0 && a1 == 0 ==> w == v && q == p
            &&& total == 0 ==> w == (VaultView { idle0: v.idle0 + a0, idle1: v.idle1 + a1, ..v })
                && q == p
            &&& total > 0 && (a0 != 0 || a1 != 0) ==> {
                &&& got_its_part(v.wide, w.wide, p.price, a0, a1, total)
                &&& got_its_part(v.base, w.base, p.price, a0, a1, total)
            }
        },
{
    reveal(lev_minted);
    let total = crate::lev_model::range_liquidity(v.wide) + crate::lev_model::range_liquidity(v.base);
    small(total);
    small(v.idle0 + a0);
    small(v.idle1 + a1);
    let w = v.plus_idle(a0, a1);
    if total > 0 {
        slot_gets_its_part(w, p, Slot::Wide, a0, a1, total);
        if let Some((w1, p1)) = lev_minted_slot(w, p, Slot::Wide, a0, a1, total) {
            slot_gets_its_part(w1, p1, Slot::Base, a0, a1, total);
        }
    }
}

/// What unwinding for a trade brought leaves the vault: no more than came out, less the fees
/// told meanwhile, and no more than what is idle has grown by.
pub proof fn lev_burn_gives_away_what_came_out(v: VaultView, p: PoolView, trade: int, price: int)
    ensures
        lev_burned(v, p, trade, price) matches Some((w, q)) ==> (unwound(v, p, trade, price) matches Some(
            u,
        ) && {
            let x = u.vault;
            let more0 = x.idle0 - v.idle0;
            let more1 = x.idle1 - v.idle1;
            &&& q == u.pool
            &&& w == (VaultView { idle0: w.idle0, idle1: w.idle1, ..x })
            &&& x.fees0 == v.fees0 && 0 <= u.out0 <= more0 && 0 <= v.idle0 && x.idle0 < p256()
                ==> w.idle0 == x.idle0 - u.out0
            &&& x.fees1 == v.fees1 && 0 <= u.out1 <= more1 && 0 <= v.idle1 && x.idle1 < p256()
                ==> w.idle1 == x.idle1 - u.out1
            &&& more0 <= 0 && 0 <= x.idle0 < p256() && 0 <= u.out0 ==> w.idle0 == x.idle0
            &&& more1 <= 0 && 0 <= x.idle1 < p256() && 0 <= u.out1 ==> w.idle1 == x.idle1
        }),
{
    reveal(lev_burned);
    small(0);
    if let Some(u) = unwound(v, p, trade, price) {
        let x = u.vault;
        if 0 <= u.out0 <= x.idle0 - v.idle0 && 0 <= v.idle0 && x.idle0 < p256() {
            small(x.idle0 - u.out0);
        }
        if 0 <= u.out1 <= x.idle1 - v.idle1 && 0 <= v.idle1 && x.idle1 < p256() {
            small(x.idle1 - u.out1);
        }
        if 0 <= x.idle0 < p256() {
            small(x.idle0);
        }
        if 0 <= x.idle1 < p256() {
            small(x.idle1);
        }
    }
}

/// The first loan is placed with all that the vault has: no range of before is left, and each
/// one stands where the price says.
#[verifier::rlimit(30)]
pub proof fn first_loan_is_placed_anew(v: VaultView, p: PoolView, price: int)
    requires
        v.pending == Some(LevAmmOpMode::Mint),
        v.pending_init,
    ensures
        lev_applied(v, p, price) matches Some((w, q)) ==> {
            &&& w.base is None || reaches(
                w.base,
                p.tick,
                v.spacing,
                v.params.base_threshold as int,
            )
            &&& w.wide is None || reaches(
                w.wide,
                p.tick,
                v.spacing,
                v.params.wide_threshold as int,
            )
            &&& w.limit is None || stands_beside(
                w.limit,
                p.tick,
                v.spacing,
                v.params.limit_threshold as int,
            )
            &&& w.debt == v.debt && w.pending is None
        },
{
    reveal(lev_applied);
    let x = VaultView {
        pending: None,
        pending_trade: 0,
        pending_init: false,
        pending0: 0,
        pending1: 0,
        ..v
    }.plus_idle(v.pending0, v.pending1);
    withdrawal_moves_holdings(x, p);
    if let Some((y, u)) = emptied(x, p) {
        ranges_are_placed_around_price(y, u);
        rebalance_moves_holdings(y, u);
    }
}

/// A trade that was decided on is carried out with its amounts: what was bought is minted,
/// what was sold is unwound for its value. Nothing decided on, nothing happens.
pub proof fn decided_trade_is_carried_out(v: VaultView, p: PoolView, price: int)
    requires
        !v.pending_init,
    ensures
        ({
            let w = VaultView {
                pending: None,
                pending_trade: 0,
                pending_init: false,
                pending0: 0,
                pending1: 0,
                ..v
            };
            &&& v.pending is None ==> lev_applied(v, p, price) == Some((w, p))
            &&& v.pending == Some(LevAmmOpMode::Mint) ==> lev_applied(v, p, price) == lev_minted(
                w,
                p,
                v.pending0,
                v.pending1,
            )
            &&& v.pending == Some(LevAmmOpMode::Burn) && v.pending_trade != 0 ==> lev_applied(
                v,
                p,
                price,
            ) == lev_burned(w, p, v.pending_trade, price)
        }),
{
    reveal(lev_applied);
}

/// One step values the holdings at the price that is given, or else at the pool's, and both
/// decides and is carried out there; it tells the fee and whether it traded.
pub proof fn lev_step_is_taken_at_price(v: VaultView, p: PoolView, t: LevTerms, tc: int, x: int)
    ensures
        lev_run(v, p, t, tc, None) == lev_run(v, p, t, tc, Some(p.price)),
        lev_run(v, p, t, tc, Some(x)) matches Some((w, q, (fee, traded))) ==> (totals_at(
            v,
            p,
            x,
            false,
        ) matches Some((t0, t1)) && (lev_step(v, t0, t1, price_of(x), t, tc) matches Some((y, f))
            && f == fee && traded == (y.pending is Some) && lev_applied(y, p, price_of(x)) == Some(
            (w, q),
        ))),
{
}

} // verus!
