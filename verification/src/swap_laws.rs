//! What every step of a swap keeps: it stays between the two prices, never takes
//! more than it was given and, short of its target, uses up what remained.
use crate::arith::{div_facts, p128, p255, p256, p96, wrap, wrap_signed_facts};
use crate::full_math::{ceil_mul_div, ceil_mul_div_bracket, ceil_mul_div_is_ceiling, floor_mul_div};
use crate::sqrt_price_math::{
    amount0_delta, amount1_delta, next_price_amount0, next_price_input, next_price_output,
    signed_amount0, signed_amount1,
};
use crate::swap_math::{input_between, output_between, step_fee, step_price, swap_step, StepView};
use crate::types::{max_ratio, min_ratio};
use vstd::prelude::*;

verus! {

/// A price inside the range of ticks.
pub open spec fn valid_price(p: int) -> bool {
    min_ratio() <= p <= max_ratio()
}

/// 2^160, above every valid price.
#[verifier::inline]
pub open spec fn p160() -> int {
    0x1_0000_0000_0000_0000_0000_0000_0000_0000_0000_0000int
}

/// 2^224, above every scaled liquidity.
#[verifier::inline]
pub open spec fn p224() -> int {
    0x1_0000_0000_0000_0000_0000_0000_0000_0000_0000_0000_0000_0000_0000_0000int
}

/// `q` is `n / d` rounded up.
spec fn is_ceil(q: int, n: int, d: int) -> bool {
    q >= 0 && q * d >= n && (q - 1) * d < n
}

/// `q` is `n / d` rounded down.
spec fn is_floor(q: int, n: int, d: int) -> bool {
    q >= 0 && q * d <= n && n < (q + 1) * d
}

proof fn floor_of(n: int, d: int)
    requires
        n >= 0,
        d > 0,
    ensures
        is_floor(n / d, n, d),
{
    div_facts(n, d);
    let q = n / d;
    assert(q >= 0 && n < (q + 1) * d) by (nonlinear_arith)
        requires
            n == q * d + n % d,
            0 <= n % d < d,
            n >= 0,
    ;
}

/// A quotient is below any bound that times the divisor exceeds the numerator.
proof fn floor_below(q: int, n: int, d: int, b: int)
    requires
        is_floor(q, n, d),
        d > 0,
        n < b * d,
    ensures
        q < b,
{
    assert(q < b) by (nonlinear_arith)
        requires
            q * d <= n,
            n < b * d,
            d > 0,
    ;
}

proof fn ceil_at_most(q: int, n: int, d: int, b: int)
    requires
        is_ceil(q, n, d),
        d > 0,
        n <= b * d,
    ensures
        q <= b,
{
    assert(q - 1 < b) by (nonlinear_arith)
        requires
            (q - 1) * d < n,
            n <= b * d,
            d > 0,
    ;
}

proof fn ceil_above(q: int, n: int, d: int, b: int)
    requires
        is_ceil(q, n, d),
        d > 0,
        b * d < n,
    ensures
        b < q,
{
    assert(b < q) by (nonlinear_arith)
        requires
            q * d >= n,
            b * d < n,
            d > 0,
    ;
}

proof fn floor_at_least(q: int, n: int, d: int, b: int)
    requires
        is_floor(q, n, d),
        d > 0,
        b * d <= n,
    ensures
        b <= q,
{
    assert(b < q + 1) by (nonlinear_arith)
        requires
            n < (q + 1) * d,
            b * d <= n,
            d > 0,
    ;
}

/// Rounding up in range.
proof fn ceil_of(a: int, b: int, d: int, bound: int)
    requires
        a >= 0,
        b >= 0,
        d > 0,
        bound < p256() - 1,
        a * b < bound * d,
    ensures
        ceil_mul_div(a, b, d) is Some,
        is_ceil(ceil_mul_div(a, b, d)->0, a * b, d),
        ceil_mul_div(a, b, d)->0 <= bound,
{
    assert(a * b >= 0) by (nonlinear_arith)
        requires
            a >= 0,
            b >= 0,
    ;
    floor_of(a * b, d);
    floor_below(a * b / d, a * b, d, bound);
    ceil_mul_div_bracket(a, b, d);
    ceil_at_most(ceil_mul_div(a, b, d)->0, a * b, d, bound);
}

/// Token 0 between two prices, rounded up: two nested roundings.
proof fn amount0_up(pa: int, pb: int, l: int) -> (x: int)
    requires
        0 < pa <= pb,
        0 <= l < p128(),
    ensures
        amount0_delta(pa, pb, l, true) is Some,
        amount0_delta(pb, pa, l, true) == amount0_delta(pa, pb, l, true),
        is_ceil(x, (l * p96()) * (pb - pa), pb),
        is_ceil(amount0_delta(pa, pb, l, true)->0, x, pa),
        x <= p224(),
        amount0_delta(pa, pb, l, true)->0 <= p224(),
{
    let n = l * p96();
    assert(n * (pb - pa) < p224() * pb) by (nonlinear_arith)
        requires
            0 <= n < p224(),
            0 <= pb - pa <= pb,
            pb > 0,
    ;
    ceil_of(n, pb - pa, pb, p224());
    let x = ceil_mul_div(n, pb - pa, pb)->0;
    assert(x * 1 == x);
    assert(x < (p224() + 1) * pa) by (nonlinear_arith)
        requires
            0 <= x <= p224(),
            pa >= 1,
    ;
    ceil_of(x, 1, pa, p224() + 1);
    assert(x <= p224() * pa) by (nonlinear_arith)
        requires
            0 <= x <= p224(),
            pa >= 1,
    ;
    ceil_at_most(ceil_mul_div(x, 1, pa)->0, x, pa, p224());
    x
}

/// Token 0 between two prices, rounded down: two nested roundings.
proof fn amount0_down(pa: int, pb: int, l: int) -> (x: int)
    requires
        0 < pa <= pb,
        0 <= l < p128(),
    ensures
        amount0_delta(pa, pb, l, false) is Some,
        amount0_delta(pb, pa, l, false) == amount0_delta(pa, pb, l, false),
        is_floor(x, (l * p96()) * (pb - pa), pb),
        is_floor(amount0_delta(pa, pb, l, false)->0, x, pa),
        amount0_delta(pa, pb, l, false)->0 < p224(),
{
    let n = l * p96();
    let m = n * (pb - pa);
    assert(0 <= m < p224() * pb) by (nonlinear_arith)
        requires
            0 <= n < p224(),
            0 <= pb - pa <= pb,
            pb > 0,
            m == n * (pb - pa),
    ;
    floor_of(m, pb);
    floor_below(m / pb, m, pb, p224());
    let x = m / pb;
    assert(wrap(x) == x);
    floor_of(x, pa);
    assert(x < p224() * pa) by (nonlinear_arith)
        requires
            0 <= x < p224(),
            pa >= 1,
    ;
    floor_below(x / pa, x, pa, p224());
    x
}

/// Token 1 between two prices.
proof fn amount1_both(pa: int, pb: int, l: int)
    requires
        pa <= pb < pa + p160(),
        0 <= l < p128(),
    ensures
        amount1_delta(pa, pb, l, true) is Some,
        amount1_delta(pb, pa, l, true) == amount1_delta(pa, pb, l, true),
        is_ceil(amount1_delta(pa, pb, l, true)->0, l * (pb - pa), p96()),
        amount1_delta(pa, pb, l, true)->0 <= p224(),
        amount1_delta(pa, pb, l, false) is Some,
        amount1_delta(pb, pa, l, false) == amount1_delta(pa, pb, l, false),
        is_floor(amount1_delta(pa, pb, l, false)->0, l * (pb - pa), p96()),
        amount1_delta(pa, pb, l, false)->0 < p224(),
{
    let m = l * (pb - pa);
    assert(0 <= m < p128() * p160()) by (nonlinear_arith)
        requires
            0 <= l < p128(),
            0 <= pb - pa < p160(),
            m == l * (pb - pa),
    ;
    ceil_of(l, pb - pa, p96(), p224());
    floor_of(m, p96());
    floor_below(m / p96(), m, p96(), p224());
}

/// The price after token 0 enters: not above the old one, and high enough for the
/// amount to pay for the move.
proof fn adding0_price(p: int, l: int, amount: int)
    requires
        0 < p < p160(),
        0 < l < p128(),
        0 < amount,
        l * p96() / p + amount < p256(),
    ensures
        ({
            let n = l * p96();
            let next = next_price_amount0(p, l, amount, true)->0;
            &&& next_price_amount0(p, l, amount, true) is Some
            &&& 0 < next <= p
            &&& next * (n + amount * p) >= n * p
        }),
{
    let n = l * p96();
    assert(n >= 1 && wrap(n) == n);
    let den = n + amount * p;
    assert(amount * p >= p) by (nonlinear_arith)
        requires
            amount >= 1,
            p >= 0,
    ;
    let next = next_price_amount0(p, l, amount, true)->0;
    if den < p256() {
        assert(n * p < (p + 1) * den) by (nonlinear_arith)
            requires
                den >= n + p,
                n >= 0,
                p >= 1,
        ;
        ceil_of(n, p, den, p + 1);
        assert(n * p <= p * den) by (nonlinear_arith)
            requires
                den >= n,
                p >= 0,
        ;
        ceil_at_most(next, n * p, den, p);
        assert(next * den >= n * p);
    } else {
        floor_of(n, p);
        let f = n / p;
        let d2 = f + amount;
        assert(wrap(d2) == d2);
        assert(n * 1 == n);
        assert(n < (p + 1) * d2) by (nonlinear_arith)
            requires
                n < (f + 1) * p,
                d2 >= f + 1,
                p >= 1,
                f >= 0,
        ;
        ceil_of(n, 1, d2, p + 1);
        assert(n <= p * d2) by (nonlinear_arith)
            requires
                n < (f + 1) * p,
                d2 >= f + 1,
                p >= 1,
        ;
        ceil_at_most(next, n, d2, p);
        assert(next * den >= next * (f * p + amount * p)) by (nonlinear_arith)
            requires
                den == n + amount * p,
                f * p <= n,
                next >= 0,
        ;
        assert(next * (f * p + amount * p) == (next * d2) * p) by (nonlinear_arith)
            requires
                d2 == f + amount,
        ;
        assert((next * d2) * p >= n * p) by (nonlinear_arith)
            requires
                next * d2 >= n,
                p >= 1,
        ;
    }
    assert(next > 0) by (nonlinear_arith)
        requires
            next * den >= n * p,
            n >= 1,
            p >= 1,
            den >= 1,
    ;
}

/// What a move down costs in token 0, at a price that the amount pays for.
proof fn move0_is_paid(p: int, next: int, l: int, amount: int)
    requires
        0 < next <= p,
        0 <= l < p128(),
        next * (l * p96() + amount * p) >= (l * p96()) * p,
    ensures
        amount0_delta(next, p, l, true) is Some,
        amount0_delta(next, p, l, true)->0 <= amount,
{
    let n = l * p96();
    let y = amount0_up(next, p, l);
    assert(n * (p - next) <= (amount * next) * p) by (nonlinear_arith)
        requires
            next * (n + amount * p) >= n * p,
    ;
    ceil_at_most(y, n * (p - next), p, amount * next);
    ceil_at_most(amount0_delta(next, p, l, true)->0, y, next, amount);
}

/// Spending less than what reaches the target, token 0 in: the price stays above
/// the target, and what the move costs was affordable.
proof fn spend0(p: int, t: int, l: int, amount: int)
    requires
        valid_price(p),
        valid_price(t),
        t <= p,
        0 <= l < p128(),
        0 <= amount,
        amount < amount0_delta(t, p, l, true)->0,
    ensures
        l > 0,
        next_price_input(p, l, amount, true) is Some,
        t < next_price_input(p, l, amount, true)->0 <= p,
        amount0_delta(next_price_input(p, l, amount, true)->0, p, l, true)->0 <= amount,
{
    let n = l * p96();
    let x = amount0_up(t, p, l);
    let needed = amount0_delta(t, p, l, true)->0;
    // amount * t < x and amount * t * p < n * (p - t)
    assert(amount * t < x) by (nonlinear_arith)
        requires
            amount <= needed - 1,
            (needed - 1) * t < x,
            t >= 0,
    ;
    assert((amount * t) * p < n * (p - t)) by (nonlinear_arith)
        requires
            amount * t <= x - 1,
            (x - 1) * p < n * (p - t),
            p >= 0,
    ;
    assert((amount * t) * p >= 0) by (nonlinear_arith)
        requires
            amount >= 0,
            t >= 0,
            p >= 0,
    ;
    assert(n > 0 && t < p) by (nonlinear_arith)
        requires
            0 < n * (p - t),
            n >= 0,
    ;
    if amount == 0 {
        assert(p * (n + 0 * p) >= n * p) by (nonlinear_arith);
        move0_is_paid(p, p, l, 0);
    } else {
        floor_of(n, p);
        assert(n / p <= n) by (nonlinear_arith)
            requires
                n / p * p <= n,
                p >= 1,
                n / p >= 0,
        ;
        adding0_price(p, l, amount);
        let next = next_price_amount0(p, l, amount, true)->0;
        let den = n + amount * p;
        assert(t < next) by (nonlinear_arith)
            requires
                next * den >= n * p,
                den == n + amount * p,
                (amount * t) * p < n * (p - t),
                den > 0,
        {
            assert(t * den < n * p) by (nonlinear_arith)
                requires
                    den == n + amount * p,
                    (amount * t) * p < n * (p - t),
            ;
        }
        move0_is_paid(p, next, l, amount);
    }
}

/// Spending less than what reaches the target, token 1 in.
proof fn spend1(p: int, t: int, l: int, amount: int)
    requires
        valid_price(p),
        valid_price(t),
        p <= t,
        0 <= l < p128(),
        0 <= amount,
        amount < amount1_delta(p, t, l, true)->0,
    ensures
        l > 0,
        next_price_input(p, l, amount, false) is Some,
        p <= next_price_input(p, l, amount, false)->0 < t,
        amount1_delta(p, next_price_input(p, l, amount, false)->0, l, true)->0 <= amount,
{
    amount1_both(p, t, l);
    let needed = amount1_delta(p, t, l, true)->0;
    assert(amount * p96() < l * (t - p)) by (nonlinear_arith)
        requires
            amount <= needed - 1,
            (needed - 1) * p96() < l * (t - p),
    ;
    assert(l > 0) by {
        if l == 0 {
            assert(l * (t - p) == 0) by (nonlinear_arith)
                requires
                    l == 0,
            ;
        }
    }
    let m = amount * p96();
    floor_of(m, l);
    let q = m / l;
    assert(m < (t - p) * l) by (nonlinear_arith)
        requires
            m < l * (t - p),
    ;
    floor_below(q, m, l, t - p);
    assert(wrap(q) == q);
    let next = p + q;
    assert(wrap(next) == next);
    amount1_both(p, next, l);
    assert(l * (next - p) <= amount * p96()) by (nonlinear_arith)
        requires
            q * l <= m,
            m == amount * p96(),
            next == p + q,
    ;
    ceil_at_most(amount1_delta(p, next, l, true)->0, l * (next - p), p96(), amount);
}

/// Drawing less than what reaches the target, token 1 out.
proof fn draw1(p: int, t: int, l: int, wanted: int)
    requires
        valid_price(p),
        valid_price(t),
        t <= p,
        0 <= l < p128(),
        0 < wanted,
        wanted < amount1_delta(t, p, l, false)->0,
    ensures
        l > 0,
        next_price_output(p, l, wanted, true) is Some,
        t <= next_price_output(p, l, wanted, true)->0 <= p,
        amount1_delta(next_price_output(p, l, wanted, true)->0, p, l, false)->0 >= wanted,
{
    amount1_both(t, p, l);
    let available = amount1_delta(t, p, l, false)->0;
    assert(wanted * p96() < l * (p - t)) by (nonlinear_arith)
        requires
            wanted + 1 <= available,
            available * p96() <= l * (p - t),
    ;
    assert(l > 0) by {
        if l == 0 {
            assert(l * (p - t) == 0) by (nonlinear_arith)
                requires
                    l == 0,
            ;
        }
    }
    let m = wanted * p96();
    assert(m < (p - t) * l) by (nonlinear_arith)
        requires
            m < l * (p - t),
    ;
    ceil_of(wanted, p96(), l, p - t);
    let q = ceil_mul_div(wanted, p96(), l)->0;
    let next = p - q;
    amount1_both(next, p, l);
    assert(wanted * p96() <= l * (p - next)) by (nonlinear_arith)
        requires
            q * l >= m,
            m == wanted * p96(),
            next == p - q,
    ;
    floor_at_least(amount1_delta(next, p, l, false)->0, l * (p - next), p96(), wanted);
}

/// The price after an output of token 0 that is less than what is available.
proof fn draw0_price(p: int, t: int, l: int, wanted: int)
    requires
        valid_price(p),
        valid_price(t),
        p <= t,
        0 <= l < p128(),
        0 < wanted,
        wanted < amount0_delta(p, t, l, false)->0,
    ensures
        ({
            let n = l * p96();
            let next = next_price_output(p, l, wanted, false)->0;
            &&& l > 0
            &&& next_price_output(p, l, wanted, false) is Some
            &&& p <= next <= t
            &&& next * (n - wanted * p) >= n * p
        }),
{
    let n = l * p96();
    let x = amount0_down(p, t, l);
    let available = amount0_delta(p, t, l, false)->0;
    let w = wanted * p;
    assert(p <= w <= x) by (nonlinear_arith)
        requires
            1 <= wanted <= available,
            available * p <= x,
            p >= 0,
            w == wanted * p,
    ;
    assert(w * t <= n * (t - p)) by (nonlinear_arith)
        requires
            w <= x,
            x * t <= n * (t - p),
            t >= 0,
    ;
    if n <= w {
        assert(n * (t - p) < w * t) by (nonlinear_arith)
            requires
                n <= w,
                w >= 1,
                t >= p,
                p >= 1,
        ;
    }
    vstd::arithmetic::div_mod::lemma_small_mod(n as nat, p256() as nat);
    let den = n - w;
    assert(n * p <= t * den && n * p < (t + 1) * den && (p - 1) * den < n * p) by (nonlinear_arith)
        requires
            den == n - w,
            w * t <= n * (t - p),
            1 <= den <= n,
            p >= 1,
    ;
    ceil_of(n, p, den, t + 1);
    let next = ceil_mul_div(n, p, den)->0;
    ceil_at_most(next, n * p, den, t);
    ceil_above(next, n * p, den, p - 1);
}

/// Drawing less than what reaches the target, token 0 out.
proof fn draw0(p: int, t: int, l: int, wanted: int)
    requires
        valid_price(p),
        valid_price(t),
        p <= t,
        0 <= l < p128(),
        0 < wanted,
        wanted < amount0_delta(p, t, l, false)->0,
    ensures
        l > 0,
        next_price_output(p, l, wanted, false) is Some,
        p <= next_price_output(p, l, wanted, false)->0 <= t,
        amount0_delta(p, next_price_output(p, l, wanted, false)->0, l, false)->0 >= wanted,
{
    draw0_price(p, t, l, wanted);
    let n = l * p96();
    let next = next_price_output(p, l, wanted, false)->0;
    let y = amount0_down(p, next, l);
    assert((wanted * p) * next <= n * (next - p)) by (nonlinear_arith)
        requires
            next * (n - wanted * p) >= n * p,
    ;
    floor_at_least(y, n * (next - p), next, wanted * p);
    floor_at_least(amount0_delta(p, next, l, false)->0, y, p, wanted);
}

/// The fee on an input that was affordable net of the fee is affordable too.
proof fn fee_fits(remaining: int, fee: int, amount_in: int)
    requires
        0 <= remaining < p255(),
        0 <= fee <= 10_000,
        0 <= amount_in <= floor_mul_div(remaining, 1_000_000 - fee, 1_000_000),
        amount_in <= p224(),
    ensures
        ceil_mul_div(amount_in, fee, 1_000_000 - fee) is Some,
        0 <= ceil_mul_div(amount_in, fee, 1_000_000 - fee)->0 <= p224(),
        amount_in + ceil_mul_div(amount_in, fee, 1_000_000 - fee)->0 <= remaining,
        floor_mul_div(remaining, 1_000_000 - fee, 1_000_000) <= remaining,
{
    let k = 1_000_000 - fee;
    let m = remaining * k;
    assert(0 <= m <= remaining * 1_000_000) by (nonlinear_arith)
        requires
            remaining >= 0,
            0 <= k <= 1_000_000,
            m == remaining * k,
    ;
    floor_of(m, 1_000_000);
    let s = m / 1_000_000;
    assert(wrap(s) == s);
    assert(amount_in * fee < (p224() - 1) * k) by (nonlinear_arith)
        requires
            0 <= amount_in <= p224(),
            0 <= fee <= 10_000,
            k == 1_000_000 - fee,
    ;
    ceil_of(amount_in, fee, k, p224() - 1);
    let c = ceil_mul_div(amount_in, fee, k)->0;
    // amount_in * 10^6 <= remaining * k, so amount_in * fee <= (remaining - amount_in) * k
    assert(amount_in * fee <= (remaining - amount_in) * k) by (nonlinear_arith)
        requires
            amount_in * 1_000_000 <= remaining * k,
            k == 1_000_000 - fee,
    ;
    ceil_at_most(c, amount_in * fee, k, remaining - amount_in);
}

/// The fee on any input in range exists.
proof fn fee_exists(fee: int, amount_in: int)
    requires
        0 <= fee <= 10_000,
        0 <= amount_in <= p224(),
    ensures
        ceil_mul_div(amount_in, fee, 1_000_000 - fee) is Some,
        0 <= ceil_mul_div(amount_in, fee, 1_000_000 - fee)->0 <= p224(),
{
    let k = 1_000_000 - fee;
    assert(amount_in * fee < (p224() - 1) * k) by (nonlinear_arith)
        requires
            0 <= amount_in <= p224(),
            0 <= fee <= 10_000,
            k == 1_000_000 - fee,
    ;
    ceil_of(amount_in, fee, k, p224() - 1);
}

/// What a swap step keeps.
pub open spec fn step_bounds(current: int, target: int, l: int, remaining: int, fee: int) -> bool {
    let s = swap_step(current, target, l, remaining, fee)->0;
    &&& swap_step(current, target, l, remaining, fee) is Some
    &&& current >= target ==> target <= s.next <= current
    &&& current < target ==> current <= s.next <= target
    &&& 0 <= s.amount_in <= p224()
    &&& 0 <= s.amount_out < p224()
    &&& 0 <= s.fee < p256()
    &&& remaining < 0 ==> s.fee <= p224()
    &&& remaining > 0 ==> s.amount_in + s.fee <= remaining
    &&& remaining < 0 ==> s.amount_out <= -remaining
    &&& s.next != target && remaining > 0 ==> s.amount_in + s.fee == remaining
    &&& s.next != target && remaining < 0 ==> s.amount_out == -remaining
}

/// A step put together from its parts.
proof fn assemble(
    current: int,
    target: int,
    l: int,
    remaining: int,
    fee: int,
    next: int,
    amount_in: int,
    given: int,
    cost: int,
)
    requires
        step_price(current, target, l, remaining, fee) == Some(next),
        input_between(current, next, l, current >= target) == Some(amount_in),
        output_between(current, next, l, current >= target) == Some(given),
        step_fee(remaining, fee, next == target, amount_in) == Some(cost),
    ensures
        swap_step(current, target, l, remaining, fee) == Some(
            StepView {
                next,
                amount_in,
                amount_out: if remaining < 0 && given > -remaining {
                    -remaining
                } else {
                    given
                },
                fee: cost,
            },
        ),
{
    reveal(swap_step);
}

/// The amounts between two prices exist and are in range.
proof fn amounts_between(from: int, to: int, l: int, zero_for_one: bool)
    requires
        valid_price(from),
        valid_price(to),
        0 <= l < p128(),
        zero_for_one ==> to <= from,
        !zero_for_one ==> from <= to,
    ensures
        input_between(from, to, l, zero_for_one) is Some,
        0 <= input_between(from, to, l, zero_for_one)->0 <= p224(),
        output_between(from, to, l, zero_for_one) is Some,
        0 <= output_between(from, to, l, zero_for_one)->0 < p224(),
{
    reveal(input_between);
    reveal(output_between);
    if zero_for_one {
        let _ = amount0_up(to, from, l);
        amount1_both(to, from, l);
    } else {
        let _ = amount0_down(from, to, l);
        amount1_both(from, to, l);
    }
}

/// A step whose input does not pay for the target stops short of it.
proof fn input_stops_short(current: int, target: int, l: int, amount: int)
    requires
        valid_price(current),
        valid_price(target),
        0 <= l < p128(),
        0 <= amount < input_between(current, target, l, current >= target)->0,
    ensures
        ({
            let next = next_price_input(current, l, amount, current >= target)->0;
            &&& next_price_input(current, l, amount, current >= target) is Some
            &&& valid_price(next)
            &&& current >= target ==> target < next <= current
            &&& current < target ==> current <= next < target
            &&& input_between(current, next, l, current >= target)->0 <= amount
        }),
{
    reveal(input_between);
    reveal(output_between);
    if current >= target {
        spend0(current, target, l, amount);
    } else {
        spend1(current, target, l, amount);
    }
}

/// A step whose output does not exhaust the way to the target does not pass it.
proof fn output_stays_within(current: int, target: int, l: int, wanted: int)
    requires
        valid_price(current),
        valid_price(target),
        0 <= l < p128(),
        0 < wanted < output_between(current, target, l, current >= target)->0,
    ensures
        ({
            let next = next_price_output(current, l, wanted, current >= target)->0;
            &&& next_price_output(current, l, wanted, current >= target) is Some
            &&& valid_price(next)
            &&& current >= target ==> target <= next <= current
            &&& current < target ==> current <= next <= target
            &&& output_between(current, next, l, current >= target)->0 >= wanted
        }),
{
    reveal(input_between);
    reveal(output_between);
    if current >= target {
        draw1(current, target, l, wanted);
    } else {
        draw0(current, target, l, wanted);
    }
}

proof fn exact_input_step(current: int, target: int, l: int, remaining: int, fee: int)
    requires
        valid_price(current),
        valid_price(target),
        0 <= l < p128(),
        0 < remaining < p255(),
        0 <= fee <= 10_000,
    ensures
        step_bounds(current, target, l, remaining, fee),
{
    reveal(step_price);
    reveal(step_fee);
    let zero_for_one = current >= target;
    amounts_between(current, target, l, zero_for_one);
    let spendable = floor_mul_div(remaining, 1_000_000 - fee, 1_000_000);
    fee_fits(remaining, fee, 0);
    let needed = input_between(current, target, l, zero_for_one)->0;
    if spendable >= needed {
        fee_fits(remaining, fee, needed);
        assemble(
            current,
            target,
            l,
            remaining,
            fee,
            target,
            needed,
            output_between(current, target, l, zero_for_one)->0,
            ceil_mul_div(needed, fee, 1_000_000 - fee)->0,
        );
    } else {
        let next = next_price_input(current, l, spendable, zero_for_one)->0;
        input_stops_short(current, target, l, spendable);
        amounts_between(current, next, l, zero_for_one);
        let amount_in = input_between(current, next, l, zero_for_one)->0;
        vstd::arithmetic::div_mod::lemma_small_mod((remaining - amount_in) as nat, p256() as nat);
        assemble(
            current,
            target,
            l,
            remaining,
            fee,
            next,
            amount_in,
            output_between(current, next, l, zero_for_one)->0,
            remaining - amount_in,
        );
    }
}

proof fn exact_output_step(current: int, target: int, l: int, remaining: int, fee: int)
    requires
        valid_price(current),
        valid_price(target),
        0 <= l < p128(),
        -p255() <= remaining < 0,
        0 <= fee <= 10_000,
    ensures
        step_bounds(current, target, l, remaining, fee),
{
    reveal(step_price);
    reveal(step_fee);
    let zero_for_one = current >= target;
    amounts_between(current, target, l, zero_for_one);
    let available = output_between(current, target, l, zero_for_one)->0;
    let next = if -remaining >= available {
        target
    } else {
        next_price_output(current, l, -remaining, zero_for_one)->0
    };
    if -remaining < available {
        output_stays_within(current, target, l, -remaining);
    }
    amounts_between(current, next, l, zero_for_one);
    let amount_in = input_between(current, next, l, zero_for_one)->0;
    fee_exists(fee, amount_in);
    assemble(
        current,
        target,
        l,
        remaining,
        fee,
        next,
        amount_in,
        output_between(current, next, l, zero_for_one)->0,
        ceil_mul_div(amount_in, fee, 1_000_000 - fee)->0,
    );
}

/// Between two valid prices at any liquidity below 2^128 a swap step always
/// succeeds. Its price lies between the current one and the target. It takes no
/// more than what remains of an exact input and gives no more than what remains of
/// an exact output, and short of its target it uses all of it.
pub proof fn swap_step_bounds(current: int, target: int, l: int, remaining: int, fee: int)
    requires
        valid_price(current),
        valid_price(target),
        0 <= l < p128(),
        -p255() <= remaining < p255(),
        remaining != 0,
        0 <= fee <= 10_000,
    ensures
        step_bounds(current, target, l, remaining, fee),
{
    if remaining > 0 {
        exact_input_step(current, target, l, remaining, fee);
    } else {
        exact_output_step(current, target, l, remaining, fee);
    }
}

/// Between two prices of at most 160 bits, the amounts of liquidity rounded up and down exist and
/// differ by at most one unit.
pub proof fn rounding_gap(pa: int, pb: int, l: int)
    requires
        0 < pa <= pb < p160(),
        0 <= l < p128(),
    ensures
        ({
            let up0 = amount0_delta(pa, pb, l, true)->0;
            let down0 = amount0_delta(pa, pb, l, false)->0;
            let up1 = amount1_delta(pa, pb, l, true)->0;
            let down1 = amount1_delta(pa, pb, l, false)->0;
            &&& amount0_delta(pa, pb, l, true) is Some
            &&& amount0_delta(pa, pb, l, false) is Some
            &&& amount1_delta(pa, pb, l, true) is Some
            &&& amount1_delta(pa, pb, l, false) is Some
            &&& 0 <= down0 <= up0 <= down0 + 1
            &&& 0 <= down1 <= up1 <= down1 + 1
            &&& up0 <= p224()
            &&& up1 <= p224()
        }),
{
    let x_up = amount0_up(pa, pb, l);
    let x_down = amount0_down(pa, pb, l);
    amount1_both(pa, pb, l);
    let n = (l * p96()) * (pb - pa);
    near(x_up, x_down, n, pb);
    let up0 = amount0_delta(pa, pb, l, true)->0;
    let down0 = amount0_delta(pa, pb, l, false)->0;
    assert(down0 <= up0) by (nonlinear_arith)
        requires
            down0 * pa <= x_down,
            x_down <= x_up,
            x_up <= up0 * pa,
            pa > 0,
    ;
    assert(up0 <= down0 + 1) by (nonlinear_arith)
        requires
            (up0 - 1) * pa < x_up,
            x_up <= x_down + 1,
            x_down < (down0 + 1) * pa,
            pa > 0,
    ;
    near(
        amount1_delta(pa, pb, l, true)->0,
        amount1_delta(pa, pb, l, false)->0,
        l * (pb - pa),
        p96(),
    );
}

proof fn near(up: int, down: int, n: int, d: int)
    requires
        is_ceil(up, n, d),
        is_floor(down, n, d),
        d > 0,
    ensures
        down <= up <= down + 1,
{
    assert(down <= up) by (nonlinear_arith)
        requires
            down * d <= n,
            n <= up * d,
            d > 0,
    ;
    assert(up - 1 < down + 1) by (nonlinear_arith)
        requires
            (up - 1) * d < n,
            n < (down + 1) * d,
            d > 0,
    ;
}

/// The amount of token 0 between two prices is `l * 2^96 * (pb - pa) / (pa * pb)` and that
/// of token 1 is `l * (pb - pa) / 2^96`: rounded up for what goes in, down for what comes
/// out.
pub proof fn amounts_are_exact(pa: int, pb: int, l: int)
    requires
        0 < pa <= pb < p160(),
        0 <= l < p128(),
    ensures
        ({
            let up0 = amount0_delta(pa, pb, l, true)->0;
            let down0 = amount0_delta(pa, pb, l, false)->0;
            let up1 = amount1_delta(pa, pb, l, true)->0;
            let down1 = amount1_delta(pa, pb, l, false)->0;
            let n = l * p96() * (pb - pa);
            &&& up0 * (pa * pb) >= n && (up0 - 1) * (pa * pb) < n
            &&& down0 * (pa * pb) <= n && n < (down0 + 1) * (pa * pb)
            &&& up1 * p96() >= l * (pb - pa) && (up1 - 1) * p96() < l * (pb - pa)
            &&& down1 * p96() <= l * (pb - pa) && l * (pb - pa) < (down1 + 1) * p96()
        }),
{
    let x_up = amount0_up(pa, pb, l);
    let x_down = amount0_down(pa, pb, l);
    amount1_both(pa, pb, l);
    let n = l * p96() * (pb - pa);
    let up0 = amount0_delta(pa, pb, l, true)->0;
    let down0 = amount0_delta(pa, pb, l, false)->0;
    assert(up0 * (pa * pb) >= n) by (nonlinear_arith)
        requires
            up0 * pa >= x_up,
            x_up * pb >= n,
            pb > 0,
    ;
    assert((up0 - 1) * (pa * pb) < n) by (nonlinear_arith)
        requires
            (up0 - 1) * pa <= x_up - 1,
            (x_up - 1) * pb < n,
            pb > 0,
    ;
    assert(down0 * (pa * pb) <= n) by (nonlinear_arith)
        requires
            down0 * pa <= x_down,
            x_down * pb <= n,
            pb > 0,
    ;
    assert(n < (down0 + 1) * (pa * pb)) by (nonlinear_arith)
        requires
            x_down + 1 <= (down0 + 1) * pa,
            n < (x_down + 1) * pb,
            pb > 0,
    ;
}

/// Adding liquidity takes the amount between two prices rounded up, removing it gives
/// the amount rounded toward zero, so that the two differ by at most one unit. The order
/// of the prices does not matter.
pub proof fn adding_and_removing_differ_by_one(pa: int, pb: int, l: int)
    requires
        0 < pa < p160(),
        0 < pb < p160(),
        0 < l < p128(),
    ensures
        ({
            let up0 = signed_amount0(pa, pb, l)->0;
            let down0 = signed_amount0(pa, pb, -l)->0;
            let up1 = signed_amount1(pa, pb, l)->0;
            let down1 = signed_amount1(pa, pb, -l)->0;
            &&& signed_amount0(pa, pb, l) is Some
            &&& signed_amount0(pa, pb, -l) is Some
            &&& signed_amount1(pa, pb, l) is Some
            &&& signed_amount1(pa, pb, -l) is Some
            &&& down0 <= 0 <= up0
            &&& up0 + down0 == 0 || up0 + down0 == 1
            &&& down1 <= 0 <= up1
            &&& up1 + down1 == 0 || up1 + down1 == 1
            &&& signed_amount0(pb, pa, l) == signed_amount0(pa, pb, l)
            &&& signed_amount0(pb, pa, -l) == signed_amount0(pa, pb, -l)
            &&& signed_amount1(pb, pa, l) == signed_amount1(pa, pb, l)
            &&& signed_amount1(pb, pa, -l) == signed_amount1(pa, pb, -l)
        }),
{
    let (low, high) = if pa > pb {
        (pb, pa)
    } else {
        (pa, pb)
    };
    rounding_gap(low, high, l);
    wrap_signed_facts(amount0_delta(low, high, l, true)->0);
    wrap_signed_facts(-(amount0_delta(low, high, l, false)->0));
    wrap_signed_facts(amount1_delta(low, high, l, true)->0);
    wrap_signed_facts(-(amount1_delta(low, high, l, false)->0));
}

/// A quotient that fits in 256 bits when rounded up.
proof fn ceil_within(a: int, b: int, d: int, bound: int)
    requires
        a >= 0,
        b >= 0,
        d > 0,
        bound < p256(),
        a * b <= bound * d,
    ensures
        ceil_mul_div(a, b, d) is Some,
        is_ceil(ceil_mul_div(a, b, d)->0, a * b, d),
        ceil_mul_div(a, b, d)->0 <= bound,
{
    let n = a * b;
    assert(n >= 0) by (nonlinear_arith)
        requires
            a >= 0,
            b >= 0,
            n == a * b,
    ;
    div_facts(n, d);
    let f = n / d;
    assert(f >= 0) by (nonlinear_arith)
        requires
            n == f * d + n % d,
            0 <= n % d < d,
            n >= 0,
    ;
    let q = if n % d == 0 {
        f
    } else {
        f + 1
    };
    assert((f + 1) * d == f * d + d) by (nonlinear_arith);
    assert((f - 1) * d == f * d - d) by (nonlinear_arith);
    ceil_at_most(q, n, d, bound);
    ceil_mul_div_is_ceiling(a, b, d, q);
}

/// A price never moves further than its input pays for: the input token between the old
/// price and the new one, rounded up, is at most the input, and no input moves nothing.
/// The new price has to fit in 256 bits.
pub proof fn input_pays_for_move(p: int, l: int, amount: int, zero_for_one: bool)
    requires
        0 < p < p160(),
        0 < l < p128(),
        0 <= amount < p256(),
        zero_for_one ==> l * p96() / p + amount < p256(),
        !zero_for_one ==> p + amount * p96() / l < p256(),
    ensures
        ({
            let next = next_price_input(p, l, amount, zero_for_one)->0;
            &&& next_price_input(p, l, amount, zero_for_one) is Some
            &&& zero_for_one ==> 0 < next <= p && amount0_delta(next, p, l, true) is Some
                && amount0_delta(next, p, l, true)->0 <= amount
            &&& !zero_for_one ==> p <= next && amount1_delta(p, next, l, true) is Some
                && amount1_delta(p, next, l, true)->0 <= amount
            &&& amount == 0 ==> next == p
        }),
{
    if zero_for_one {
        let n = l * p96();
        if amount == 0 {
            assert(p * (n + 0 * p) >= n * p) by (nonlinear_arith);
            move0_is_paid(p, p, l, 0);
        } else {
            adding0_price(p, l, amount);
            move0_is_paid(p, next_price_amount0(p, l, amount, true)->0, l, amount);
        }
    } else {
        let m = amount * p96();
        floor_of(m, l);
        let q = m / l;
        assert(wrap(q) == q);
        assert(wrap(p + q) == p + q);
        assert(l * q <= amount * p96()) by (nonlinear_arith)
            requires
                q * l <= m,
                m == amount * p96(),
        ;
        ceil_within(l, q, p96(), amount);
        if amount == 0 {
            assert(q == 0) by (nonlinear_arith)
                requires
                    q * l <= 0,
                    q >= 0,
                    l > 0,
            ;
        }
    }
}

/// A move of the price frees at least the output asked for: the output token between the
/// old price and the new one, rounded down, is no less. Token 1 can be had up to where
/// the price would reach zero, token 0 at least up to half of what there is. The quotient
/// that gives the new price has to fit in 256 bits.
pub proof fn output_is_freed(p: int, l: int, amount: int, zero_for_one: bool)
    requires
        0 < p < p160(),
        0 < l < p128(),
        0 < amount < p256(),
        zero_for_one ==> amount * p96() / l < p256(),
        !zero_for_one && l * p96() > amount * p ==> (l * p96()) * p / (l * p96() - amount * p)
            < p256(),
    ensures
        ({
            let r = next_price_output(p, l, amount, zero_for_one);
            let next = r->0;
            &&& zero_for_one ==> (r is Some <==> amount * p96() <= (p - 1) * l)
            &&& !zero_for_one && l * p96() > 2 * (amount * p) ==> r is Some
            &&& !zero_for_one && l * p96() <= amount * p ==> r is None
            &&& zero_for_one && r is Some ==> 0 < next < p && amount1_delta(next, p, l, false)
                is Some && amount1_delta(next, p, l, false)->0 >= amount
            &&& !zero_for_one && r is Some ==> p < next && amount0_delta(p, next, l, false)
                is Some && amount0_delta(p, next, l, false)->0 >= amount
        }),
{
    if zero_for_one {
        token1_is_freed(p, l, amount);
    } else {
        token0_is_freed(p, l, amount);
    }
}

proof fn token1_is_freed(p: int, l: int, amount: int)
    requires
        0 < p < p160(),
        0 < l < p128(),
        0 < amount < p256(),
        amount * p96() / l < p256(),
    ensures
        ({
            let r = next_price_output(p, l, amount, true);
            &&& r is Some <==> amount * p96() <= (p - 1) * l
            &&& r is Some ==> 0 < r->0 < p && amount1_delta(r->0, p, l, false) is Some
                && amount1_delta(r->0, p, l, false)->0 >= amount
        }),
{
    let m = amount * p96();
    floor_of(m, l);
    if m / l >= p256() - 1 {
        assert((p - 1) * l < m) by (nonlinear_arith)
            requires
                m / l * l <= m,
                m / l >= p,
                l > 0,
        ;
        if ceil_mul_div(amount, p96(), l) is Some {
            assert(ceil_mul_div(amount, p96(), l)->0 >= p);
        }
    } else {
        ceil_mul_div_bracket(amount, p96(), l);
        let q = ceil_mul_div(amount, p96(), l)->0;
        if m <= (p - 1) * l {
            ceil_at_most(q, m, l, p - 1);
        } else {
            ceil_above(q, m, l, p - 1);
        }
        if q < p {
            let next = p - q;
            ceil_above(q, m, l, 0);
            amount1_both(next, p, l);
            assert(amount * p96() <= l * (p - next)) by (nonlinear_arith)
                requires
                    q * l >= m,
                    m == amount * p96(),
                    next == p - q,
            ;
            floor_at_least(amount1_delta(next, p, l, false)->0, l * (p - next), p96(), amount);
        }
    }
}

proof fn token0_is_freed(p: int, l: int, amount: int)
    requires
        0 < p < p160(),
        0 < l < p128(),
        0 < amount < p256(),
        l * p96() > amount * p ==> (l * p96()) * p / (l * p96() - amount * p) < p256(),
    ensures
        ({
            let r = next_price_output(p, l, amount, false);
            &&& l * p96() > 2 * (amount * p) ==> r is Some
            &&& l * p96() <= amount * p ==> r is None
            &&& r is Some ==> p < r->0 && amount0_delta(p, r->0, l, false) is Some
                && amount0_delta(p, r->0, l, false)->0 >= amount
        }),
{
    let n = l * p96();
    let w = amount * p;
    assert(n >= 1 && wrap(n) == n);
    assert(w >= 1) by (nonlinear_arith)
        requires
            w == amount * p,
            amount >= 1,
            p >= 1,
    ;
    if n > w {
        let den = n - w;
        let m = n * p;
        assert(m >= 0) by (nonlinear_arith)
            requires
                m == n * p,
                n >= 0,
                p >= 0,
        ;
        floor_of(m, den);
        if n > 2 * w {
            assert(m < (2 * p) * den) by (nonlinear_arith)
                requires
                    m == n * p,
                    den == n - w,
                    n > 2 * w,
                    p >= 1,
            ;
            floor_below(m / den, m, den, 2 * p);
        }
        if m / den < p256() - 1 {
            ceil_mul_div_bracket(n, p, den);
        }
        if ceil_mul_div(n, p, den) is Some {
            let next = ceil_mul_div(n, p, den)->0;
            if m / den == p256() - 1 {
                div_facts(m, den);
                assert(next * den >= m);
            }
            assert(p < next) by (nonlinear_arith)
                requires
                    next * den >= m,
                    m == n * p,
                    den == n - w,
                    den >= 1,
                    w >= 1,
                    p >= 1,
            ;
            let y = amount0_down(p, next, l);
            assert((amount * p) * next <= n * (next - p)) by (nonlinear_arith)
                requires
                    next * (n - amount * p) >= n * p,
            ;
            floor_at_least(y, n * (next - p), next, amount * p);
            floor_at_least(amount0_delta(p, next, l, false)->0, y, p, amount);
        }
    }
}

} // verus!
