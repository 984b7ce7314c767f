//! Prices, conversions between amounts and liquidity, and the curve of the
//! leverage market maker. All arithmetic is modulo 2^256.
use crate::arith::{div_facts, p192, p256, p96, wrap};
use crate::full_math::{
    ceil_mul_div, checked_mul_div, floor_mul_div, is_sqrt, mul_div, sqrt, sqrt_unique, try_mul_div,
    try_mul_div_rounding_up,
};
use crate::sqrt_price_math::{
    amount0_delta, amount1_delta, opt, try_get_amount0_delta_unsigned,
    try_get_amount1_delta_unsigned,
};
use crate::tick_math::{get_sqrt_ratio_at_tick, ratio_at};
use crate::types::{abs, MAX_TICK, MAX_UINT256, MIN_TICK, Q192, Q96, U256};
use vstd::prelude::*;

verus! {

/// The scale of ratios and prices, 10^18.
#[verifier::inline]
pub open spec fn one_wad() -> int {
    1_000_000_000_000_000_000
}

/// The scale of fees, one million.
#[verifier::inline]
pub open spec fn fee_scale() -> int {
    1_000_000
}

pub open spec fn wadd(a: int, b: int) -> int {
    wrap(a + b)
}

pub open spec fn wsub(a: int, b: int) -> int {
    wrap(a - b)
}

pub open spec fn wmul(a: int, b: int) -> int {
    wrap(a * b)
}

/// `a - b`, or zero where `b` is larger.
pub open spec fn sat_sub(a: int, b: int) -> int {
    if a > b {
        a - b
    } else {
        0
    }
}

pub open spec fn smaller(a: int, b: int) -> int {
    if a <= b {
        a
    } else {
        b
    }
}

pub open spec fn larger(a: int, b: int) -> int {
    if a >= b {
        a
    } else {
        b
    }
}

pub fn wad() -> (r: U256)
    ensures
        r@ == one_wad(),
{
    U256::from_u128(1_000_000_000_000_000_000)
}

pub fn fee_den() -> (r: U256)
    ensures
        r@ == fee_scale(),
{
    U256::from_u128(1_000_000)
}

/// `a - b`, or zero where `b` is larger.
pub fn saturating_sub(a: U256, b: U256) -> (r: U256)
    ensures
        r@ == sat_sub(a@, b@),
{
    if a > b {
        a - b
    } else {
        U256::ZERO()
    }
}

/// How far apart two numbers are.
pub fn distance(a: U256, b: U256) -> (r: U256)
    ensures
        r@ == abs(a@ - b@),
{
    if a > b {
        a - b
    } else {
        b - a
    }
}

/// The price at a tick, where the tick is in range.
pub open spec fn ratio_in_range(t: int) -> Option<int> {
    if MIN_TICK <= t <= MAX_TICK {
        Some(ratio_at(t))
    } else {
        None
    }
}

pub fn try_ratio(t: i32) -> (r: Option<U256>)
    ensures
        opt(r) == ratio_in_range(t as int),
{
    if t >= MIN_TICK && t <= MAX_TICK {
        Some(get_sqrt_ratio_at_tick(t))
    } else {
        None
    }
}

/// Token 1 per token 0 at a square root price.
pub open spec fn price_of(sqrt_price: int) -> int {
    floor_mul_div(wmul(sqrt_price, sqrt_price), one_wad(), p192())
}

/// The value of a volatile amount in stable units at a price of token 1 per token 0.
pub open spec fn to_stable(vol0: bool, amount: int, price: int) -> int {
    if vol0 {
        floor_mul_div(amount, price, one_wad())
    } else if price == 0 {
        0
    } else {
        floor_mul_div(amount, one_wad(), price)
    }
}

/// The volatile amount that a stable amount is worth.
pub open spec fn to_volatile(vol0: bool, amount: int, price: int) -> int {
    if vol0 {
        if price == 0 {
            0
        } else {
            floor_mul_div(amount, one_wad(), price)
        }
    } else {
        floor_mul_div(amount, price, one_wad())
    }
}

/// The volatile and the stable amount out of the amounts of token 0 and token 1.
pub open spec fn by_role(vol0: bool, a0: int, a1: int) -> (int, int) {
    if vol0 {
        (a0, a1)
    } else {
        (a1, a0)
    }
}

/// The value of both amounts in stable units.
pub open spec fn stable_value(vol0: bool, a0: int, a1: int, price: int) -> int {
    let (volatile, stable) = by_role(vol0, a0, a1);
    wadd(stable, to_stable(vol0, volatile, price))
}

pub fn pool_price(sqrt_price_x96: U256) -> (r: U256)
    ensures
        r@ == price_of(sqrt_price_x96@),
{
    mul_div(sqrt_price_x96 * sqrt_price_x96, wad(), Q192())
}

pub fn volatile_to_stable(vol0: bool, amount: U256, price: U256) -> (r: U256)
    ensures
        r@ == to_stable(vol0, amount@, price@),
{
    if vol0 {
        mul_div(amount, price, wad())
    } else if price.is_zero() {
        U256::ZERO()
    } else {
        mul_div(amount, wad(), price)
    }
}

pub fn stable_to_volatile(vol0: bool, amount: U256, price: U256) -> (r: U256)
    ensures
        r@ == to_volatile(vol0, amount@, price@),
{
    if vol0 {
        if price.is_zero() {
            U256::ZERO()
        } else {
            mul_div(amount, wad(), price)
        }
    } else {
        mul_div(amount, price, wad())
    }
}

pub fn roles(vol0: bool, a0: U256, a1: U256) -> (r: (U256, U256))
    ensures
        (r.0@, r.1@) == by_role(vol0, a0@, a1@),
        r == (if vol0 { (a0, a1) } else { (a1, a0) }),
{
    if vol0 {
        (a0, a1)
    } else {
        (a1, a0)
    }
}

pub fn value_in_stable(vol0: bool, a0: U256, a1: U256, price: U256) -> (r: U256)
    ensures
        r@ == stable_value(vol0, a0@, a1@, price@),
{
    let (volatile, stable) = roles(vol0, a0, a1);
    stable + volatile_to_stable(vol0, volatile, price)
}

/// The liquidity that an amount of token 0 gives between two prices.
pub open spec fn liquidity0(pa: int, pb: int, amount: int) -> int {
    let (low, high) = if pa > pb {
        (pb, pa)
    } else {
        (pa, pb)
    };
    if high == low {
        0
    } else {
        floor_mul_div(amount, floor_mul_div(low, high, p96()), high - low)
    }
}

/// The liquidity that an amount of token 1 gives between two prices.
pub open spec fn liquidity1(pa: int, pb: int, amount: int) -> int {
    let (low, high) = if pa > pb {
        (pb, pa)
    } else {
        (pa, pb)
    };
    if high == low {
        0
    } else {
        floor_mul_div(amount, p96(), high - low)
    }
}

/// The most liquidity that two amounts give in a range at a price.
pub open spec fn max_liquidity(price: int, lower: int, upper: int, a0: int, a1: int) -> Option<int> {
    match (ratio_in_range(lower), ratio_in_range(upper)) {
        (Some(pa), Some(pb)) => if price <= pa {
            Some(liquidity0(pa, pb, a0))
        } else if price < pb {
            Some(smaller(liquidity0(price, pb, a0), liquidity1(pa, price, a1)))
        } else {
            Some(liquidity1(pa, pb, a1))
        },
        _ => None,
    }
}

/// The amounts that liquidity stands for in a range at a price.
pub open spec fn range_amounts(price: int, lower: int, upper: int, l: int, up: bool) -> Option<
    (int, int),
> {
    match (ratio_in_range(lower), ratio_in_range(upper)) {
        (Some(pa), Some(pb)) => if price <= pa {
            match amount0_delta(pa, pb, l, up) {
                Some(a0) => Some((a0, 0)),
                None => None,
            }
        } else if price < pb {
            match (amount0_delta(price, pb, l, up), amount1_delta(pa, price, l, up)) {
                (Some(a0), Some(a1)) => Some((a0, a1)),
                _ => None,
            }
        } else {
            match amount1_delta(pa, pb, l, up) {
                Some(a1) => Some((0, a1)),
                None => None,
            }
        },
        _ => None,
    }
}

/// Liquidity scaled down until what it takes of each token is at hand.
pub open spec fn capped_liquidity(price: int, lower: int, upper: int, raw: int, i0: int, i1: int) -> Option<
    int,
> {
    if raw == 0 {
        Some(0)
    } else {
        match range_amounts(price, lower, upper, raw, true) {
            Some((need0, need1)) => {
                let s0 = if need0 > i0 {
                    smaller(one_wad(), floor_mul_div(one_wad(), i0, need0))
                } else {
                    one_wad()
                };
                let s1 = if need1 > i1 {
                    smaller(s0, floor_mul_div(one_wad(), i1, need1))
                } else {
                    s0
                };
                if s1 == 0 {
                    Some(0)
                } else {
                    Some(floor_mul_div(raw, s1, one_wad()))
                }
            },
            None => None,
        }
    }
}

fn liquidity_for_amount0(sqrt_a: U256, sqrt_b: U256, amount: U256) -> (r: U256)
    ensures
        r@ == liquidity0(sqrt_a@, sqrt_b@, amount@),
{
    let (low, high) = if sqrt_a > sqrt_b {
        (sqrt_b, sqrt_a)
    } else {
        (sqrt_a, sqrt_b)
    };
    let diff: U256 = high - low;
    if diff.is_zero() {
        return U256::ZERO();
    }
    mul_div(amount, mul_div(low, high, Q96()), diff)
}

fn liquidity_for_amount1(sqrt_a: U256, sqrt_b: U256, amount: U256) -> (r: U256)
    ensures
        r@ == liquidity1(sqrt_a@, sqrt_b@, amount@),
{
    let (low, high) = if sqrt_a > sqrt_b {
        (sqrt_b, sqrt_a)
    } else {
        (sqrt_a, sqrt_b)
    };
    let diff: U256 = high - low;
    if diff.is_zero() {
        return U256::ZERO();
    }
    mul_div(amount, Q96(), diff)
}

/// The most liquidity that two amounts give in a range; `None` for a tick out of range.
pub fn max_liquidity_for_amounts(
    sqrt_price: U256,
    tick_lower: i32,
    tick_upper: i32,
    amount0: U256,
    amount1: U256,
) -> (r: Option<U256>)
    ensures
        opt(r) == max_liquidity(
            sqrt_price@,
            tick_lower as int,
            tick_upper as int,
            amount0@,
            amount1@,
        ),
{
    let sqrt_a: U256 = match try_ratio(tick_lower) {
        Some(x) => x,
        None => return None,
    };
    let sqrt_b: U256 = match try_ratio(tick_upper) {
        Some(x) => x,
        None => return None,
    };
    if sqrt_price <= sqrt_a {
        Some(liquidity_for_amount0(sqrt_a, sqrt_b, amount0))
    } else if sqrt_price < sqrt_b {
        let l0: U256 = liquidity_for_amount0(sqrt_price, sqrt_b, amount0);
        let l1: U256 = liquidity_for_amount1(sqrt_a, sqrt_price, amount1);
        if l0 < l1 {
            Some(l0)
        } else {
            Some(l1)
        }
    } else {
        Some(liquidity_for_amount1(sqrt_a, sqrt_b, amount1))
    }
}

/// A pair of optional amounts by its views.
pub open spec fn opt_pair(x: Option<(U256, U256)>) -> Option<(int, int)> {
    match x {
        Some((a, b)) => Some((a@, b@)),
        None => None,
    }
}

/// The amounts that liquidity stands for in a range; `None` where they do not exist.
pub fn amounts_for_liquidity_round(
    sqrt_price: U256,
    tick_lower: i32,
    tick_upper: i32,
    liquidity: U256,
    round_up: bool,
) -> (r: Option<(U256, U256)>)
    ensures
        opt_pair(r) == range_amounts(
            sqrt_price@,
            tick_lower as int,
            tick_upper as int,
            liquidity@,
            round_up,
        ),
{
    let sqrt_a: U256 = match try_ratio(tick_lower) {
        Some(x) => x,
        None => return None,
    };
    let sqrt_b: U256 = match try_ratio(tick_upper) {
        Some(x) => x,
        None => return None,
    };
    if sqrt_price <= sqrt_a {
        match try_get_amount0_delta_unsigned(sqrt_a, sqrt_b, liquidity, round_up) {
            Some(a0) => Some((a0, U256::ZERO())),
            None => None,
        }
    } else if sqrt_price < sqrt_b {
        let a0: U256 = match try_get_amount0_delta_unsigned(sqrt_price, sqrt_b, liquidity, round_up) {
            Some(x) => x,
            None => return None,
        };
        let a1: U256 = match try_get_amount1_delta_unsigned(sqrt_a, sqrt_price, liquidity, round_up) {
            Some(x) => x,
            None => return None,
        };
        Some((a0, a1))
    } else {
        match try_get_amount1_delta_unsigned(sqrt_a, sqrt_b, liquidity, round_up) {
            Some(a1) => Some((U256::ZERO(), a1)),
            None => None,
        }
    }
}

/// Liquidity scaled down until what it takes of each token is at hand.
pub fn cap_liquidity(
    sqrt_price: U256,
    tick_lower: i32,
    tick_upper: i32,
    liq_raw: U256,
    idle0: U256,
    idle1: U256,
) -> (r: Option<U256>)
    ensures
        opt(r) == capped_liquidity(
            sqrt_price@,
            tick_lower as int,
            tick_upper as int,
            liq_raw@,
            idle0@,
            idle1@,
        ),
{
    if liq_raw.is_zero() {
        return Some(U256::ZERO());
    }
    let (need0, need1) = match amounts_for_liquidity_round(
        sqrt_price,
        tick_lower,
        tick_upper,
        liq_raw,
        true,
    ) {
        Some(x) => x,
        None => return None,
    };
    let w: U256 = wad();
    let mut scale: U256 = w;
    if need0 > idle0 {
        let s: U256 = mul_div(w, idle0, need0);
        if s < scale {
            scale = s;
        }
    }
    if need1 > idle1 {
        let s: U256 = mul_div(w, idle1, need1);
        if s < scale {
            scale = s;
        }
    }
    if scale.is_zero() {
        return Some(U256::ZERO());
    }
    Some(mul_div(liq_raw, scale, w))
}

/// `a / b` rounded up; zero for a zero `b`.
pub open spec fn ceil_quotient(a: int, b: int) -> int {
    if b == 0 {
        0
    } else if a % b != 0 {
        a / b + 1
    } else {
        a / b
    }
}

pub fn ceil_div(a: U256, b: U256) -> (r: U256)
    ensures
        r@ == ceil_quotient(a@, b@),
{
    if b.is_zero() {
        return U256::ZERO();
    }
    let d: U256 = a / b;
    let rem: U256 = a % b;
    proof {
        div_facts(a@, b@);
        let q = a@ / b@;
        if rem@ != 0 {
            assert(q < p256() - 1) by (nonlinear_arith)
                requires
                    a@ == q * b@ + a@ % b@,
                    a@ % b@ > 0,
                    a@ % b@ < b@,
                    0 <= a@ < p256(),
                    b@ > 0,
                    q >= 0,
            ;
        }
    }
    if !rem.is_zero() {
        d + U256::ONE()
    } else {
        d
    }
}

/// The integer square root.
pub open spec fn root(v: int) -> int {
    choose|r: int| is_sqrt(r, v)
}

/// The square root that the curve uses: none for the largest value.
pub open spec fn curve_root(v: int) -> Option<int> {
    if v == p256() - 1 {
        None
    } else {
        Some(root(v))
    }
}

/// The integer square root; `None` for the largest value, whose successor does not
/// fit.
fn sqrt_bigint(value: U256) -> (r: Option<U256>)
    ensures
        opt(r) == curve_root(value@),
{
    if value == MAX_UINT256() {
        return None;
    }
    let r: U256 = sqrt(value);
    proof {
        sqrt_unique(r@, root(value@), value@);
    }
    Some(r)
}

/// `c^2 / (c + 1)^2` for a target collateral ratio `c`, in units of 10^-18.
pub open spec fn curve_ratio(tc: int) -> Option<int> {
    let d = wadd(tc, one_wad());
    checked_mul_div(wmul(tc, tc), one_wad(), wmul(d, d))
}

/// The size of the curve through a collateral value and a debt: the larger root of
/// `ratio * x^2 - coll * x + coll * debt = 0`.
pub open spec fn curve_x0(coll: int, debt: int, ratio: int) -> Option<int> {
    let scaled = wmul(one_wad(), coll);
    let disc = wsub(
        wmul(scaled, scaled),
        wmul(wmul(wmul(wmul(4, ratio), one_wad()), coll), debt),
    );
    match curve_root(disc) {
        Some(r) => if wmul(2, ratio) == 0 {
            None
        } else {
            Some(wadd(scaled, r) / wmul(2, ratio))
        },
        None => None,
    }
}

/// The debt on the curve at a collateral value.
pub open spec fn curve_debt(ratio: int, x0: int, coll: int) -> Option<int> {
    if ratio == 0 || x0 == 0 || coll == 0 {
        Some(0)
    } else {
        match checked_mul_div(ratio, wmul(x0, x0), wmul(one_wad(), coll)) {
            Some(offset) => Some(sat_sub(x0, offset)),
            None => None,
        }
    }
}

/// The collateral value on the curve at a debt, rounded up.
pub open spec fn curve_collateral(ratio: int, x0: int, debt: int) -> int {
    if ratio == 0 || x0 <= debt {
        0
    } else {
        ceil_quotient(wmul(wmul(ratio, x0), x0), wmul(one_wad(), x0 - debt))
    }
}

/// The collateral value on the curve where its price is `price`.
pub open spec fn curve_collateral_at(ratio: int, x0: int, price: int, up: bool) -> Option<int> {
    if ratio == 0 || x0 == 0 || price == 0 {
        Some(0)
    } else {
        let squared = floor_mul_div(ratio, wmul(x0, x0), price);
        match curve_root(squared) {
            Some(r) => if up && wmul(r, r) < squared {
                Some(wadd(r, 1))
            } else {
                Some(r)
            },
            None => None,
        }
    }
}

/// A value in stable units split into its stable and its volatile part in the
/// proportion of the holdings.
pub open spec fn value_split(value: int, stable: int, total: int) -> (int, int) {
    if value == 0 || total == 0 {
        (0, 0)
    } else {
        let s = if stable == 0 {
            0
        } else {
            floor_mul_div(value, stable, total)
        };
        (s, sat_sub(value, s))
    }
}

/// The stable and the volatile share of the holdings.
pub open spec fn share_split(stable: int, total: int) -> (int, int) {
    let s = if stable == 0 {
        0
    } else {
        floor_mul_div(stable, one_wad(), total)
    };
    (
        s,
        if s < one_wad() {
            one_wad() - s
        } else {
            0
        },
    )
}

/// What acquiring one unit of the holdings costs with the swap fee.
pub open spec fn acquire_cost_unit(stable: int, total: int, fee: int) -> Option<int> {
    if total == 0 {
        Some(0)
    } else {
        let (s, v) = share_split(stable, total);
        match ceil_mul_div(v, fee_scale(), wsub(fee_scale(), fee)) {
            Some(c) => Some(wadd(s, c)),
            None => None,
        }
    }
}

/// What unwinding one unit of the holdings gives with the swap fee.
pub open spec fn unwind_proceeds_unit(stable: int, total: int, fee: int) -> int {
    if total == 0 {
        0
    } else {
        let (s, v) = share_split(stable, total);
        wadd(s, floor_mul_div(v, wsub(fee_scale(), fee), fee_scale()))
    }
}

/// What acquiring holdings of a value costs with the swap fee.
pub open spec fn acquire_cost(value: int, stable: int, total: int, fee: int) -> Option<int> {
    let (s, v) = value_split(value, stable, total);
    match ceil_mul_div(v, fee_scale(), wsub(fee_scale(), fee)) {
        Some(c) => Some(wadd(s, c)),
        None => None,
    }
}

/// What unwinding holdings of a value gives with the swap fee.
pub open spec fn unwind_proceeds(value: int, stable: int, total: int, fee: int) -> int {
    let (s, v) = value_split(value, stable, total);
    wadd(s, floor_mul_div(v, wsub(fee_scale(), fee), fee_scale()))
}

pub fn lev_amm_curve_ratio_wad(tc: U256) -> (r: Option<U256>)
    ensures
        opt(r) == curve_ratio(tc@),
{
    let d: U256 = tc + wad();
    try_mul_div(tc * tc, wad(), d * d)
}

pub fn lev_amm_curve_x0(coll_value: U256, debt: U256, curve_ratio_wad: U256) -> (r: Option<U256>)
    ensures
        opt(r) == curve_x0(coll_value@, debt@, curve_ratio_wad@),
{
    let w: U256 = wad();
    let scaled: U256 = w * coll_value;
    let disc: U256 = scaled * scaled - U256::from_u128(4) * curve_ratio_wad * w * coll_value * debt;
    let r: U256 = match sqrt_bigint(disc) {
        Some(x) => x,
        None => return None,
    };
    let d: U256 = U256::from_u128(2) * curve_ratio_wad;
    if d.is_zero() {
        return None;
    }
    Some((scaled + r) / d)
}

pub fn lev_amm_debt_for_collateral(curve_ratio_wad: U256, x0: U256, coll_value: U256) -> (r: Option<
    U256,
>)
    ensures
        opt(r) == curve_debt(curve_ratio_wad@, x0@, coll_value@),
{
    if curve_ratio_wad.is_zero() || x0.is_zero() || coll_value.is_zero() {
        return Some(U256::ZERO());
    }
    match try_mul_div(curve_ratio_wad, x0 * x0, wad() * coll_value) {
        Some(offset) => Some(saturating_sub(x0, offset)),
        None => None,
    }
}

pub fn lev_amm_collateral_for_debt(curve_ratio_wad: U256, x0: U256, debt: U256) -> (r: U256)
    ensures
        r@ == curve_collateral(curve_ratio_wad@, x0@, debt@),
{
    if curve_ratio_wad.is_zero() || x0 <= debt {
        return U256::ZERO();
    }
    ceil_div(curve_ratio_wad * x0 * x0, wad() * (x0 - debt))
}

pub fn lev_amm_collateral_for_price(
    curve_ratio_wad: U256,
    x0: U256,
    price_wad: U256,
    round_up: bool,
) -> (r: Option<U256>)
    ensures
        opt(r) == curve_collateral_at(curve_ratio_wad@, x0@, price_wad@, round_up),
{
    if curve_ratio_wad.is_zero() || x0.is_zero() || price_wad.is_zero() {
        return Some(U256::ZERO());
    }
    let squared: U256 = mul_div(curve_ratio_wad, x0 * x0, price_wad);
    let r: U256 = match sqrt_bigint(squared) {
        Some(x) => x,
        None => return None,
    };
    if round_up && r * r < squared {
        Some(r + U256::ONE())
    } else {
        Some(r)
    }
}

pub fn lev_amm_stable_split(value: U256, stable_balance: U256, total: U256) -> (r: (U256, U256))
    ensures
        (r.0@, r.1@) == value_split(value@, stable_balance@, total@),
{
    if value.is_zero() || total.is_zero() {
        return (U256::ZERO(), U256::ZERO());
    }
    let s: U256 = if stable_balance.is_zero() {
        U256::ZERO()
    } else {
        mul_div(value, stable_balance, total)
    };
    (s, saturating_sub(value, s))
}

fn shares_of(stable_balance: U256, total: U256) -> (r: (U256, U256))
    requires
        total@ != 0,
    ensures
        (r.0@, r.1@) == share_split(stable_balance@, total@),
{
    let w: U256 = wad();
    let s: U256 = if stable_balance.is_zero() {
        U256::ZERO()
    } else {
        mul_div(stable_balance, w, total)
    };
    (
        s,
        if s < w {
            w - s
        } else {
            U256::ZERO()
        },
    )
}

pub fn lev_amm_lp_acquire_cost_wad(stable_balance: U256, total: U256, fee_num: U256) -> (r: Option<
    U256,
>)
    ensures
        opt(r) == acquire_cost_unit(stable_balance@, total@, fee_num@),
{
    if total.is_zero() {
        return Some(U256::ZERO());
    }
    let (s, v) = shares_of(stable_balance, total);
    match try_mul_div_rounding_up(v, fee_den(), fee_den() - fee_num) {
        Some(c) => Some(s + c),
        None => None,
    }
}

pub fn lev_amm_lp_unwind_proceeds_wad(stable_balance: U256, total: U256, fee_num: U256) -> (r: U256)
    ensures
        r@ == unwind_proceeds_unit(stable_balance@, total@, fee_num@),
{
    if total.is_zero() {
        return U256::ZERO();
    }
    let (s, v) = shares_of(stable_balance, total);
    s + mul_div(v, fee_den() - fee_num, fee_den())
}

pub fn lev_amm_lp_acquire_cost(value: U256, stable_balance: U256, total: U256, fee_num: U256) -> (r:
    Option<U256>)
    ensures
        opt(r) == acquire_cost(value@, stable_balance@, total@, fee_num@),
{
    let (s, v) = lev_amm_stable_split(value, stable_balance, total);
    match try_mul_div_rounding_up(v, fee_den(), fee_den() - fee_num) {
        Some(c) => Some(s + c),
        None => None,
    }
}

pub fn lev_amm_lp_unwind_proceeds(
    value: U256,
    stable_balance: U256,
    total: U256,
    fee_num: U256,
) -> (r: U256)
    ensures
        r@ == unwind_proceeds(value@, stable_balance@, total@, fee_num@),
{
    let (s, v) = lev_amm_stable_split(value, stable_balance, total);
    s + mul_div(v, fee_den() - fee_num, fee_den())
}

} // verus!
