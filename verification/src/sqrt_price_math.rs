//! Token amounts between two square root prices, and the price that an amount
//! moves the pool to.
use crate::arith::{div_facts, div_unique, p128, p256, p96, two_values, wrap, wrap_signed};
use crate::full_math::{ceil_mul_div, floor_mul_div, mul_div, try_mul_div_rounding_up};
use crate::types::{i256_bits, I256, MAX_UINT160, Q96, U256};
use vstd::prelude::*;

verus! {

/// The amount of token 0 between two prices at liquidity `l`, rounded up or down:
/// `l * 2^96 * (high - low) / high / low`. Fails at a zero price and where
/// rounding up leaves 256 bits.
pub open spec fn amount0_delta(pa: int, pb: int, l: int, up: bool) -> Option<int> {
    let (low, high) = if pa > pb {
        (pb, pa)
    } else {
        (pa, pb)
    };
    let numerator = wrap(l * p96());
    if up {
        match ceil_mul_div(numerator, high - low, high) {
            Some(x) => ceil_mul_div(x, 1, low),
            None => None,
        }
    } else if low == 0 || high == 0 {
        None
    } else {
        Some(floor_mul_div(numerator, high - low, high) / low)
    }
}

/// The amount of token 1 between two prices at liquidity `l`, rounded up or down:
/// `l * (high - low) / 2^96`. Fails where rounding up leaves 256 bits.
pub open spec fn amount1_delta(pa: int, pb: int, l: int, up: bool) -> Option<int> {
    let (low, high) = if pa > pb {
        (pb, pa)
    } else {
        (pa, pb)
    };
    if up {
        ceil_mul_div(l, high - low, p96())
    } else {
        Some(floor_mul_div(l, high - low, p96()))
    }
}

/// The signed amount for a liquidity change: what adding takes, rounded up, or
/// what removing gives, rounded down and negated.
pub open spec fn signed_amount0(pa: int, pb: int, l: int) -> Option<int> {
    if l < 0 {
        match amount0_delta(pa, pb, -l, false) {
            Some(x) => Some(wrap_signed(-x)),
            None => None,
        }
    } else {
        match amount0_delta(pa, pb, l, true) {
            Some(x) => Some(wrap_signed(x)),
            None => None,
        }
    }
}

/// As `signed_amount0`, for token 1.
pub open spec fn signed_amount1(pa: int, pb: int, l: int) -> Option<int> {
    if l < 0 {
        match amount1_delta(pa, pb, -l, false) {
            Some(x) => Some(wrap_signed(-x)),
            None => None,
        }
    } else {
        match amount1_delta(pa, pb, l, true) {
            Some(x) => Some(wrap_signed(x)),
            None => None,
        }
    }
}

/// The price after `amount` of token 0 enters (`add`) or leaves the pool, rounded up.
pub open spec fn next_price_amount0(p: int, l: int, amount: int, add: bool) -> Option<int> {
    let numerator = wrap(l * p96());
    if amount == 0 {
        Some(p)
    } else if add {
        if numerator + amount * p < p256() {
            ceil_mul_div(numerator, p, numerator + amount * p)
        } else {
            ceil_mul_div(numerator, 1, wrap(numerator / p + amount))
        }
    } else if numerator > amount * p {
        ceil_mul_div(numerator, p, numerator - amount * p)
    } else {
        None
    }
}

/// The price after `amount` of token 1 enters (`add`) or leaves the pool, rounded down.
pub open spec fn next_price_amount1(p: int, l: int, amount: int, add: bool) -> Option<int> {
    if add {
        if l == 0 {
            None
        } else {
            Some(wrap(p + floor_mul_div(amount, p96(), l)))
        }
    } else {
        match ceil_mul_div(amount, p96(), l) {
            Some(q) => if p > q {
                Some(p - q)
            } else {
                None
            },
            None => None,
        }
    }
}

/// The price after `amount_in` of the input token enters the pool.
pub open spec fn next_price_input(p: int, l: int, amount_in: int, zero_for_one: bool) -> Option<
    int,
> {
    if p == 0 || l == 0 {
        None
    } else if zero_for_one {
        next_price_amount0(p, l, amount_in, true)
    } else {
        next_price_amount1(p, l, amount_in, true)
    }
}

/// The price after `amount_out` of the output token leaves the pool.
pub open spec fn next_price_output(p: int, l: int, amount_out: int, zero_for_one: bool) -> Option<
    int,
> {
    if p == 0 || l == 0 {
        None
    } else if zero_for_one {
        next_price_amount1(p, l, amount_out, false)
    } else {
        next_price_amount0(p, l, amount_out, false)
    }
}

/// An optional 256-bit integer by its view.
pub open spec fn opt(x: Option<U256>) -> Option<int> {
    match x {
        Some(v) => Some(v@),
        None => None,
    }
}

/// An optional signed integer by its view.
pub open spec fn opt_signed(x: Option<I256>) -> Option<int> {
    match x {
        Some(v) => Some(v@),
        None => None,
    }
}

pub fn try_get_amount0_delta_unsigned(
    sqrt_ratio_a_x96: U256,
    sqrt_ratio_b_x96: U256,
    liquidity: U256,
    round_up: bool,
) -> (r: Option<U256>)
    ensures
        opt(r) == amount0_delta(sqrt_ratio_a_x96@, sqrt_ratio_b_x96@, liquidity@, round_up),
{
    let (low, high) = if sqrt_ratio_a_x96 > sqrt_ratio_b_x96 {
        (sqrt_ratio_b_x96, sqrt_ratio_a_x96)
    } else {
        (sqrt_ratio_a_x96, sqrt_ratio_b_x96)
    };
    proof {
        two_values();
    }
    let numerator1: U256 = liquidity << 96;
    let numerator2: U256 = high - low;
    if round_up {
        match try_mul_div_rounding_up(numerator1, numerator2, high) {
            Some(x) => try_mul_div_rounding_up(x, U256::ONE(), low),
            None => None,
        }
    } else if low.is_zero() || high.is_zero() {
        None
    } else {
        Some(mul_div(numerator1, numerator2, high) / low)
    }
}

pub fn get_amount0_delta_unsigned(
    sqrt_ratio_a_x96: U256,
    sqrt_ratio_b_x96: U256,
    liquidity: U256,
    round_up: bool,
) -> (r: U256)
    requires
        amount0_delta(sqrt_ratio_a_x96@, sqrt_ratio_b_x96@, liquidity@, round_up) is Some,
    ensures
        amount0_delta(sqrt_ratio_a_x96@, sqrt_ratio_b_x96@, liquidity@, round_up) == Some(r@),
{
    match try_get_amount0_delta_unsigned(sqrt_ratio_a_x96, sqrt_ratio_b_x96, liquidity, round_up) {
        Some(r) => r,
        None => U256::ZERO(),
    }
}

pub fn try_get_amount1_delta_unsigned(
    sqrt_ratio_a_x96: U256,
    sqrt_ratio_b_x96: U256,
    liquidity: U256,
    round_up: bool,
) -> (r: Option<U256>)
    ensures
        opt(r) == amount1_delta(sqrt_ratio_a_x96@, sqrt_ratio_b_x96@, liquidity@, round_up),
{
    let (low, high) = if sqrt_ratio_a_x96 > sqrt_ratio_b_x96 {
        (sqrt_ratio_b_x96, sqrt_ratio_a_x96)
    } else {
        (sqrt_ratio_a_x96, sqrt_ratio_b_x96)
    };
    if round_up {
        try_mul_div_rounding_up(liquidity, high - low, Q96())
    } else {
        Some(mul_div(liquidity, high - low, Q96()))
    }
}

pub fn get_amount1_delta_unsigned(
    sqrt_ratio_a_x96: U256,
    sqrt_ratio_b_x96: U256,
    liquidity: U256,
    round_up: bool,
) -> (r: U256)
    requires
        amount1_delta(sqrt_ratio_a_x96@, sqrt_ratio_b_x96@, liquidity@, round_up) is Some,
    ensures
        amount1_delta(sqrt_ratio_a_x96@, sqrt_ratio_b_x96@, liquidity@, round_up) == Some(r@),
{
    match try_get_amount1_delta_unsigned(sqrt_ratio_a_x96, sqrt_ratio_b_x96, liquidity, round_up) {
        Some(r) => r,
        None => U256::ZERO(),
    }
}

pub fn try_get_amount0_delta(
    sqrt_ratio_a_x96: U256,
    sqrt_ratio_b_x96: U256,
    liquidity: I256,
) -> (r: Option<I256>)
    ensures
        opt_signed(r) == signed_amount0(sqrt_ratio_a_x96@, sqrt_ratio_b_x96@, liquidity@),
{
    proof {
        i256_bits(liquidity);
    }
    if liquidity.is_negative() {
        match try_get_amount0_delta_unsigned(
            sqrt_ratio_a_x96,
            sqrt_ratio_b_x96,
            liquidity.abs(),
            false,
        ) {
            Some(x) => {
                proof {
                    negated_bits(x);
                }
                Some(I256(x).negate())
            },
            None => None,
        }
    } else {
        match try_get_amount0_delta_unsigned(sqrt_ratio_a_x96, sqrt_ratio_b_x96, liquidity.0, true) {
            Some(x) => Some(I256(x)),
            None => None,
        }
    }
}

/// Negating bits read as signed is negating the unsigned value, wrapped.
pub proof fn negated_bits(x: U256)
    ensures
        wrap_signed(-wrap_signed(x@)) == wrap_signed(-x@),
{
}

pub fn get_amount0_delta(
    sqrt_ratio_a_x96: U256,
    sqrt_ratio_b_x96: U256,
    liquidity: I256,
) -> (r: I256)
    requires
        signed_amount0(sqrt_ratio_a_x96@, sqrt_ratio_b_x96@, liquidity@) is Some,
    ensures
        signed_amount0(sqrt_ratio_a_x96@, sqrt_ratio_b_x96@, liquidity@) == Some(r@),
{
    match try_get_amount0_delta(sqrt_ratio_a_x96, sqrt_ratio_b_x96, liquidity) {
        Some(r) => r,
        None => I256::ZERO(),
    }
}

pub fn try_get_amount1_delta(
    sqrt_ratio_a_x96: U256,
    sqrt_ratio_b_x96: U256,
    liquidity: I256,
) -> (r: Option<I256>)
    ensures
        opt_signed(r) == signed_amount1(sqrt_ratio_a_x96@, sqrt_ratio_b_x96@, liquidity@),
{
    proof {
        i256_bits(liquidity);
    }
    if liquidity.is_negative() {
        match try_get_amount1_delta_unsigned(
            sqrt_ratio_a_x96,
            sqrt_ratio_b_x96,
            liquidity.abs(),
            false,
        ) {
            Some(x) => {
                proof {
                    negated_bits(x);
                }
                Some(I256(x).negate())
            },
            None => None,
        }
    } else {
        match try_get_amount1_delta_unsigned(sqrt_ratio_a_x96, sqrt_ratio_b_x96, liquidity.0, true) {
            Some(x) => Some(I256(x)),
            None => None,
        }
    }
}

pub fn get_amount1_delta(
    sqrt_ratio_a_x96: U256,
    sqrt_ratio_b_x96: U256,
    liquidity: I256,
) -> (r: I256)
    requires
        signed_amount1(sqrt_ratio_a_x96@, sqrt_ratio_b_x96@, liquidity@) is Some,
    ensures
        signed_amount1(sqrt_ratio_a_x96@, sqrt_ratio_b_x96@, liquidity@) == Some(r@),
{
    match try_get_amount1_delta(sqrt_ratio_a_x96, sqrt_ratio_b_x96, liquidity) {
        Some(r) => r,
        None => I256::ZERO(),
    }
}

/// Dividing a wrapped product by one factor gives the other factor exactly
/// where the product did not wrap.
proof fn product_test(amount: int, p: int)
    requires
        0 < amount < p256(),
        0 <= p < p256(),
    ensures
        amount * p >= 0,
        wrap(amount * p) / amount == p <==> amount * p < p256(),
        amount * p < p256() ==> wrap(amount * p) == amount * p,
{
    let n = amount * p;
    assert(n >= 0) by (nonlinear_arith)
        requires
            n == amount * p,
            amount > 0,
            p >= 0,
    ;
    assert(p * amount == n) by (nonlinear_arith)
        requires
            n == amount * p,
    ;
    if n < p256() {
        div_unique(n, amount, p, 0);
    } else {
        let w = wrap(n);
        div_facts(w, amount);
        if w / amount == p {
            assert(false);
        }
    }
}

fn try_next_adding0(p: U256, liquidity: U256, amount: U256) -> (r: Option<U256>)
    requires
        amount@ != 0,
    ensures
        opt(r) == next_price_amount0(p@, liquidity@, amount@, true),
{
    proof {
        two_values();
        product_test(amount@, p@);
    }
    let numerator1: U256 = liquidity << 96;
    let product: U256 = amount.wrapping_mul(p);
    if product / amount == p {
        let (denominator, overflow) = numerator1.overflowing_add(product);
        if !overflow {
            return try_mul_div_rounding_up(numerator1, p, denominator);
        }
    }
    if p.is_zero() {
        proof {
            assert(amount@ * 0 == 0) by (nonlinear_arith);
        }
        return None;
    }
    try_mul_div_rounding_up(numerator1, U256::ONE(), numerator1 / p + amount)
}

fn try_next_removing0(p: U256, liquidity: U256, amount: U256) -> (r: Option<U256>)
    requires
        amount@ != 0,
    ensures
        opt(r) == next_price_amount0(p@, liquidity@, amount@, false),
{
    proof {
        two_values();
        product_test(amount@, p@);
    }
    let numerator1: U256 = liquidity << 96;
    let product: U256 = amount.wrapping_mul(p);
    if product / amount == p && numerator1 > product {
        try_mul_div_rounding_up(numerator1, p, numerator1 - product)
    } else {
        None
    }
}

fn try_next_from_amount0(p: U256, liquidity: U256, amount: U256, add: bool) -> (r: Option<U256>)
    ensures
        opt(r) == next_price_amount0(p@, liquidity@, amount@, add),
{
    if amount.is_zero() {
        Some(p)
    } else if add {
        try_next_adding0(p, liquidity, amount)
    } else {
        try_next_removing0(p, liquidity, amount)
    }
}

fn try_next_from_amount1(p: U256, liquidity: U256, amount: U256, add: bool) -> (r: Option<U256>)
    ensures
        opt(r) == next_price_amount1(p@, liquidity@, amount@, add),
{
    if add {
        if liquidity.is_zero() {
            return None;
        }
        let quotient: U256 = if amount <= MAX_UINT160() {
            proof {
                two_values();
                small_quotient(amount@, liquidity@);
            }
            (amount << 96) / liquidity
        } else {
            mul_div(amount, Q96(), liquidity)
        };
        Some(p + quotient)
    } else {
        match try_mul_div_rounding_up(amount, Q96(), liquidity) {
            Some(quotient) => if p > quotient {
                Some(p - quotient)
            } else {
                None
            },
            None => None,
        }
    }
}

/// A 160-bit amount scaled by 2^96 fits in 256 bits.
proof fn small_quotient(amount: int, l: int)
    requires
        0 <= amount < 0x1_0000_0000 * p128(),
        l > 0,
    ensures
        wrap(amount * p96()) == amount * p96(),
        amount * p96() / l == floor_mul_div(amount, p96(), l),
{
    let n = amount * p96();
    assert(0 <= n < p256());
    div_facts(n, l);
    let q = n / l;
    assert(0 <= q <= n) by (nonlinear_arith)
        requires
            n == q * l + n % l,
            0 <= n % l < l,
            n >= 0,
            l >= 1,
    ;
}

/// The price after `amount_in` enters; `None` where there is none.
pub fn try_get_next_sqrt_price_from_input(
    sqrt_p_x96: U256,
    liquidity: U256,
    amount_in: U256,
    zero_for_one: bool,
) -> (r: Option<U256>)
    ensures
        opt(r) == next_price_input(sqrt_p_x96@, liquidity@, amount_in@, zero_for_one),
{
    if sqrt_p_x96.is_zero() || liquidity.is_zero() {
        None
    } else if zero_for_one {
        try_next_from_amount0(sqrt_p_x96, liquidity, amount_in, true)
    } else {
        try_next_from_amount1(sqrt_p_x96, liquidity, amount_in, true)
    }
}

pub fn get_next_sqrt_price_from_input(
    sqrt_p_x96: U256,
    liquidity: U256,
    amount_in: U256,
    zero_for_one: bool,
) -> (r: U256)
    requires
        next_price_input(sqrt_p_x96@, liquidity@, amount_in@, zero_for_one) is Some,
    ensures
        next_price_input(sqrt_p_x96@, liquidity@, amount_in@, zero_for_one) == Some(r@),
{
    match try_get_next_sqrt_price_from_input(sqrt_p_x96, liquidity, amount_in, zero_for_one) {
        Some(r) => r,
        None => sqrt_p_x96,
    }
}

/// The price after `amount_out` leaves; `None` where there is none.
pub fn try_get_next_sqrt_price_from_output(
    sqrt_p_x96: U256,
    liquidity: U256,
    amount_out: U256,
    zero_for_one: bool,
) -> (r: Option<U256>)
    ensures
        opt(r) == next_price_output(sqrt_p_x96@, liquidity@, amount_out@, zero_for_one),
{
    if sqrt_p_x96.is_zero() || liquidity.is_zero() {
        None
    } else if zero_for_one {
        try_next_from_amount1(sqrt_p_x96, liquidity, amount_out, false)
    } else {
        try_next_from_amount0(sqrt_p_x96, liquidity, amount_out, false)
    }
}

pub fn get_next_sqrt_price_from_output(
    sqrt_p_x96: U256,
    liquidity: U256,
    amount_out: U256,
    zero_for_one: bool,
) -> (r: U256)
    requires
        next_price_output(sqrt_p_x96@, liquidity@, amount_out@, zero_for_one) is Some,
    ensures
        next_price_output(sqrt_p_x96@, liquidity@, amount_out@, zero_for_one) == Some(r@),
{
    match try_get_next_sqrt_price_from_output(sqrt_p_x96, liquidity, amount_out, zero_for_one) {
        Some(r) => r,
        None => sqrt_p_x96,
    }
}

} // verus!
