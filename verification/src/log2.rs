//! Bounds on binary logarithms, in units of 2^-50, kept as exact statements
//! about integer powers.
use crate::arith::{two, two_add, two_mono, two_pos, two_step, two_values};
use vstd::arithmetic::power::{lemma_pow_distributes, lemma_pow_multiplies, pow};
use vstd::arithmetic::power2::lemma_pow2;
use vstd::prelude::*;

verus! {

/// The number of units in one binary order of magnitude, 2^50.
#[verifier::inline]
pub open spec fn unit() -> int {
    0x4_0000_0000_0000
}

/// `log2(x) * 2^50 >= k`.
#[verifier::opaque]
pub open spec fn log_ge(x: int, k: int) -> bool {
    two(k) <= pow(x, unit() as nat)
}

/// `log2(x) * 2^50 <= k`.
#[verifier::opaque]
pub open spec fn log_le(x: int, k: int) -> bool {
    pow(x, unit() as nat) <= two(k)
}

/// A larger base has a larger power.
pub proof fn pow_mono(x: int, y: int, n: nat)
    requires
        0 <= x <= y,
    ensures
        0 <= pow(x, n) <= pow(y, n),
    decreases n,
{
    reveal(pow);
    if n > 0 {
        let m = (n - 1) as nat;
        pow_mono(x, y, m);
        let a = pow(x, m);
        let b = pow(y, m);
        assert(0 <= x * a <= y * b) by (nonlinear_arith)
            requires
                0 <= x <= y,
                0 <= a <= b,
        ;
    }
}

/// `two(e)` to the power `n` is `two(e * n)`.
pub proof fn pow_of_two(e: int, n: nat)
    requires
        e >= 0,
    ensures
        pow(two(e), n) == two(e * n),
        e * n >= 0,
{
    assert(e * n >= 0) by (nonlinear_arith)
        requires
            e >= 0,
    ;
    lemma_pow2(e as nat);
    lemma_pow2((e * n) as nat);
    lemma_pow_multiplies(2, e as nat, n);
}

pub proof fn log_of_two(e: int)
    requires
        e >= 0,
    ensures
        log_ge(two(e), e * unit()),
        log_le(two(e), e * unit()),
{
    reveal(log_ge);
    reveal(log_le);
    pow_of_two(e, unit() as nat);
}

pub proof fn log_ge_mono(x: int, y: int, a: int, b: int)
    requires
        log_ge(x, a),
        0 <= x <= y,
        0 <= b <= a,
    ensures
        log_ge(y, b),
{
    reveal(log_ge);
    pow_mono(x, y, unit() as nat);
    two_mono(b, a);
}

pub proof fn log_le_mono(x: int, y: int, a: int, b: int)
    requires
        log_le(y, a),
        0 <= x <= y,
        0 <= a <= b,
    ensures
        log_le(x, b),
{
    reveal(log_le);
    pow_mono(x, y, unit() as nat);
    two_mono(a, b);
}

pub proof fn log_ge_mul(x: int, y: int, a: int, b: int)
    requires
        log_ge(x, a),
        log_ge(y, b),
        a >= 0,
        b >= 0,
    ensures
        log_ge(x * y, a + b),
{
    reveal(log_ge);
    lemma_pow_distributes(x, y, unit() as nat);
    two_add(a, b);
    two_pos(a);
    two_pos(b);
    crate::arith::mul_le(two(a), two(b), pow(x, unit() as nat), pow(y, unit() as nat));
}

pub proof fn log_le_mul(x: int, y: int, a: int, b: int)
    requires
        log_le(x, a),
        log_le(y, b),
        x >= 0,
        y >= 0,
        a >= 0,
        b >= 0,
    ensures
        log_le(x * y, a + b),
{
    reveal(log_le);
    lemma_pow_distributes(x, y, unit() as nat);
    two_add(a, b);
    pow_mono(0, x, unit() as nat);
    pow_mono(0, y, unit() as nat);
    crate::arith::mul_le(pow(x, unit() as nat), pow(y, unit() as nat), two(a), two(b));
}

/// From a lower bound on a product and an upper bound on one factor.
pub proof fn log_ge_cancel(x: int, y: int, z: int, a: int, b: int)
    requires
        x >= 0,
        y >= 0,
        0 <= z <= x * y,
        log_ge(z, a),
        log_le(y, b),
        0 <= b <= a,
    ensures
        log_ge(x, a - b),
{
    log_ge_mono(z, x * y, a, a);
    reveal(log_ge);
    reveal(log_le);
    let n = unit() as nat;
    lemma_pow_distributes(x, y, n);
    two_add(a - b, b);
    two_pos(b);
    two_pos(a - b);
    pow_mono(0, x, n);
    let p = pow(x, n);
    let q = pow(y, n);
    let s = two(a - b);
    let t = two(b);
    assert(s <= p) by (nonlinear_arith)
        requires
            s * t <= p * q,
            q <= t,
            p >= 0,
            t >= 1,
    ;
}

/// From an upper bound on a product and a lower bound on one factor.
pub proof fn log_le_cancel(x: int, y: int, z: int, a: int, b: int)
    requires
        x >= 0,
        y >= 0,
        x * y <= z,
        log_le(z, a),
        log_ge(y, b),
        0 <= b <= a,
    ensures
        log_le(x, a - b),
{
    assert(x * y >= 0) by (nonlinear_arith)
        requires
            x >= 0,
            y >= 0,
    ;
    log_le_mono(x * y, z, a, a);
    reveal(log_ge);
    reveal(log_le);
    let n = unit() as nat;
    lemma_pow_distributes(x, y, n);
    two_add(a - b, b);
    two_pos(b);
    two_pos(a - b);
    pow_mono(0, x, n);
    let p = pow(x, n);
    let q = pow(y, n);
    let s = two(a - b);
    let t = two(b);
    assert(p <= s) by (nonlinear_arith)
        requires
            p * q <= s * t,
            q >= t,
            p >= 0,
            s >= 0,
            t >= 1,
    ;
}

/// Separated logarithms separate the numbers.
pub proof fn log_separates(x: int, y: int, a: int, b: int)
    requires
        x >= 0,
        y >= 0,
        log_le(x, a),
        log_ge(y, b),
        0 <= a < b,
    ensures
        x < y,
{
    if y <= x {
        log_le_mono(y, x, a, a);
        reveal(log_ge);
        reveal(log_le);
        two_mono(a + 1, b);
        two_step(a);
        two_pos(a);
    }
}

/// `(y + r)^n * (y - n * r) <= y^(n + 1)`.
proof fn bernoulli(y: int, r: int, n: nat)
    requires
        r >= 0,
        y >= 1,
        n * r <= y,
    ensures
        pow(y + r, n) * (y - n * r) <= pow(y, n) * y,
        pow(y + r, n) >= 0,
    decreases n,
{
    reveal(pow);
    if n == 0 {
        assert(pow(y + r, 0) * (y - 0 * r) == y) by (nonlinear_arith)
            requires
                pow(y + r, 0) == 1,
        ;
        assert(pow(y, 0) * y == y) by (nonlinear_arith)
            requires
                pow(y, 0) == 1,
        ;
    } else {
        let m = (n - 1) as nat;
        assert(m * r <= y) by (nonlinear_arith)
            requires
                n * r <= y,
                m == n - 1,
                r >= 0,
        ;
        bernoulli(y, r, m);
        let p = pow(y + r, m);
        let q = pow(y, m);
        assert((y + r) * (y - n * r) <= y * (y - m * r)) by (nonlinear_arith)
            requires
                m == n - 1,
                m >= 0,
                r >= 0,
        ;
        assert(((y + r) * p) * (y - n * r) <= (y * q) * y) by (nonlinear_arith)
            requires
                (y + r) * (y - n * r) <= y * (y - m * r),
                p * (y - m * r) <= q * y,
                p >= 0,
                y >= 1,
        {
            assert(((y + r) * p) * (y - n * r) == p * ((y + r) * (y - n * r))) by (nonlinear_arith);
            assert(p * ((y + r) * (y - n * r)) <= p * (y * (y - m * r))) by (nonlinear_arith)
                requires
                    (y + r) * (y - n * r) <= y * (y - m * r),
                    p >= 0,
            ;
            assert(p * (y * (y - m * r)) == y * (p * (y - m * r))) by (nonlinear_arith);
            assert(y * (p * (y - m * r)) <= y * (q * y)) by (nonlinear_arith)
                requires
                    p * (y - m * r) <= q * y,
                    y >= 1,
            ;
            assert(y * (q * y) == (y * q) * y) by (nonlinear_arith);
        }
        assert((y + r) * p >= 0) by (nonlinear_arith)
            requires
                y + r >= 0,
                p >= 0,
        ;
    }
}

/// A small relative change at most doubles a moderate power.
proof fn at_most_doubles(y: int, r: int, n: nat)
    requires
        r >= 0,
        y >= 1,
        2 * (n * r) <= y,
    ensures
        pow(y + r, n) <= 2 * pow(y, n),
{
    assert(n * r >= 0) by (nonlinear_arith)
        requires
            r >= 0,
    ;
    bernoulli(y, r, n);
    let p = pow(y + r, n);
    let q = pow(y, n);
    let w = n * r;
    assert(p <= 2 * q) by (nonlinear_arith)
        requires
            p * (y - w) <= q * y,
            p >= 0,
            y >= 1,
            2 * w <= y,
            w >= 0,
    ;
}

/// Adding `r` to `y` moves the logarithm by at most `2 * q` units where
/// `r * 2^50 <= q * y`.
proof fn pow_bump(y: int, r: int, q: int, n: int)
    requires
        y >= 1,
        r >= 0,
        q >= 1,
        n >= 0,
        n * (2 * q) == unit(),
        r * unit() <= q * y,
    ensures
        pow(y + r, unit() as nat) <= two(2 * q) * pow(y, unit() as nat),
{
    assert(2 * (n * r) <= y) by (nonlinear_arith)
        requires
            n * (2 * q) == unit(),
            r * unit() <= q * y,
            q >= 1,
    ;
    at_most_doubles(y, r, n as nat);
    let k = (2 * q) as nat;
    lemma_pow_multiplies(y + r, n as nat, k);
    lemma_pow_multiplies(y, n as nat, k);
    let a = pow(y + r, n as nat);
    let b = pow(y, n as nat);
    pow_mono(0, y + r, n as nat);
    pow_mono(0, y, n as nat);
    pow_mono(a, 2 * b, k);
    lemma_pow_distributes(2, b, k);
    lemma_pow2(k);
}

pub proof fn log_le_bump(y: int, r: int, b: int, q: int, n: int)
    requires
        y >= 1,
        r >= 0,
        q >= 1,
        n >= 0,
        n * (2 * q) == unit(),
        r * unit() <= q * y,
        log_le(y, b),
        b >= 0,
    ensures
        log_le(y + r, b + 2 * q),
{
    reveal(log_le);
    pow_bump(y, r, q, n);
    two_add(b, 2 * q);
    two_pos(2 * q);
    let p = pow(y, unit() as nat);
    let t = two(2 * q);
    assert(t * p <= two(b) * t) by (nonlinear_arith)
        requires
            p <= two(b),
            t >= 0,
    ;
}

pub proof fn log_ge_bump(y: int, r: int, a: int, q: int, n: int)
    requires
        y >= 1,
        r >= 0,
        q >= 1,
        n >= 0,
        n * (2 * q) == unit(),
        r * unit() <= q * y,
        log_ge(y + r, a),
        a >= 2 * q,
    ensures
        log_ge(y, a - 2 * q),
{
    reveal(log_ge);
    pow_bump(y, r, q, n);
    two_add(a - 2 * q, 2 * q);
    two_pos(2 * q);
    let p = pow(y, unit() as nat);
    let t = two(2 * q);
    let s = two(a - 2 * q);
    assert(s <= p) by (nonlinear_arith)
        requires
            s * t <= t * p,
            t >= 1,
    ;
}

/// Squaring keeps a lower bound `l * 2^s <= x^n`, cut back to `l2`.
pub proof fn square_ge(x: int, n: int, l: int, s: int, l2: int, sh: int)
    requires
        x >= 0,
        n >= 0,
        s >= 0,
        sh >= 0,
        l >= 0,
        l * two(s) <= pow(x, n as nat),
        l2 * two(sh) <= l * l,
    ensures
        l2 * two(2 * s + sh) <= pow(x, (2 * n) as nat),
{
    vstd::arithmetic::power::lemma_pow_adds(x, n as nat, n as nat);
    two_add(s, s);
    two_add(2 * s, sh);
    two_pos(s);
    let t = two(s);
    let p = pow(x, n as nat);
    assert((l * t) * (l * t) <= p * p) by (nonlinear_arith)
        requires
            0 <= l * t <= p,
    {
    }
    assert((l * t) * (l * t) == (l * l) * (t * t)) by (nonlinear_arith);
    let u = two(sh);
    assert(l2 * ((t * t) * u) <= (l * l) * (t * t)) by (nonlinear_arith)
        requires
            l2 * u <= l * l,
            t >= 1,
    {
        assert(l2 * ((t * t) * u) == (l2 * u) * (t * t)) by (nonlinear_arith);
        assert(t * t >= 0) by (nonlinear_arith)
            requires
                t >= 1,
        ;
        assert((l2 * u) * (t * t) <= (l * l) * (t * t)) by (nonlinear_arith)
            requires
                l2 * u <= l * l,
                t * t >= 0,
        ;
    }
}

/// Squaring keeps an upper bound `x^n <= h * 2^s`, cut back to `h2`.
pub proof fn square_le(x: int, n: int, h: int, s: int, h2: int, sh: int)
    requires
        x >= 0,
        n >= 0,
        s >= 0,
        sh >= 0,
        h >= 0,
        pow(x, n as nat) <= h * two(s),
        h * h <= h2 * two(sh),
    ensures
        pow(x, (2 * n) as nat) <= h2 * two(2 * s + sh),
{
    vstd::arithmetic::power::lemma_pow_adds(x, n as nat, n as nat);
    two_add(s, s);
    two_add(2 * s, sh);
    two_pos(s);
    let t = two(s);
    let p = pow(x, n as nat);
    pow_mono(0, x, n as nat);
    assert(p * p <= (h * t) * (h * t)) by (nonlinear_arith)
        requires
            0 <= p <= h * t,
    ;
    assert((h * t) * (h * t) == (h * h) * (t * t)) by (nonlinear_arith);
    let u = two(sh);
    assert((h * h) * (t * t) <= h2 * ((t * t) * u)) by (nonlinear_arith)
        requires
            h * h <= h2 * u,
            t >= 1,
    {
        assert(h2 * ((t * t) * u) == (h2 * u) * (t * t)) by (nonlinear_arith);
        assert(t * t >= 0) by (nonlinear_arith)
            requires
                t >= 1,
        ;
        assert((h * h) * (t * t) <= (h2 * u) * (t * t)) by (nonlinear_arith)
            requires
                h * h <= h2 * u,
                t * t >= 0,
        ;
    }
}

/// A lower bound on `x^(2^14)` bounds the logarithm.
pub proof fn scaled_log_ge(x: int, k: int)
    requires
        x >= 0,
        k >= 0,
        two(k) <= pow(x, 0x4000),
    ensures
        log_ge(x, k * 0x10_0000_0000),
{
    reveal(log_ge);
    let n = 0x10_0000_0000nat;
    lemma_pow_multiplies(x, 0x4000, n);
    two_pos(k);
    pow_mono(two(k), pow(x, 0x4000), n);
    pow_of_two(k, n);
}

/// An upper bound on `x^(2^14)` that is off by a tiny part bounds the logarithm.
pub proof fn scaled_log_le(x: int, g: int, e: int)
    requires
        x >= 0,
        e >= 0,
        0 <= g <= 0x1_0000_0000,
        pow(x, 0x4000) <= (two(128) + g) * two(e),
    ensures
        log_le(x, (128 + e) * 0x10_0000_0000 + 1),
{
    reveal(log_le);
    let n = 0x10_0000_0000nat;
    two_values();
    two_pos(e);
    pow_mono(0, x, 0x4000);
    lemma_pow_multiplies(x, 0x4000, n);
    let y = two(128);
    pow_mono(pow(x, 0x4000), (y + g) * two(e), n);
    lemma_pow_distributes(y + g, two(e), n);
    at_most_doubles(y, g, n);
    pow_of_two(128, n);
    pow_of_two(e, n);
    let k = n as int;
    two_add(128 * k, e * k);
    two_step(128 * k + e * k);
    let p = pow(y + g, n);
    let t = two(e * k);
    two_pos(e * k);
    assert(p * t <= (2 * two(128 * k)) * t) by (nonlinear_arith)
        requires
            p <= 2 * two(128 * k),
            t >= 0,
    ;
    assert((2 * two(128 * k)) * t == 2 * (two(128 * k) * t)) by (nonlinear_arith);
    assert((128 + e) * k + 1 == 128 * k + e * k + 1) by (nonlinear_arith)
        requires
            k == 0x10_0000_0000,
    ;
}

} // verus!
