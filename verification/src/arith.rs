//! Integer facts shared by the big-integer code: powers of two, powers of the
//! limb base and a few product inequalities.
use vstd::arithmetic::power2::{
    lemma2_to64, lemma_pow2_adds, lemma_pow2_pos, lemma_pow2_strictly_increases, lemma_pow2_unfold,
    pow2,
};
use vstd::prelude::*;
use vstd::std_specs::bits::{u64_leading_zeros, u64_trailing_zeros};

verus! {

/// 2^64, the limb base.
#[verifier::inline]
pub open spec fn p64() -> int {
    0x1_0000_0000_0000_0000int
}

/// 2^96.
#[verifier::inline]
pub open spec fn p96() -> int {
    0x1_0000_0000_0000_0000_0000_0000int
}

/// 2^128.
#[verifier::inline]
pub open spec fn p128() -> int {
    0x1_0000_0000_0000_0000_0000_0000_0000_0000int
}

/// 2^192.
#[verifier::inline]
pub open spec fn p192() -> int {
    0x1_0000_0000_0000_0000_0000_0000_0000_0000_0000_0000_0000_0000int
}

/// 2^255.
#[verifier::inline]
pub open spec fn p255() -> int {
    0x8000_0000_0000_0000_0000_0000_0000_0000_0000_0000_0000_0000_0000_0000_0000_0000int
}

/// 2^256.
#[verifier::inline]
pub open spec fn p256() -> int {
    0x1_0000_0000_0000_0000_0000_0000_0000_0000_0000_0000_0000_0000_0000_0000_0000_0000int
}

/// The representative of `x` modulo 2^256 in `0 .. 2^256`.
pub open spec fn wrap(x: int) -> int {
    x % p256()
}

/// The representative of `x` modulo 2^256 in `-2^255 .. 2^255`.
pub open spec fn wrap_signed(x: int) -> int {
    if x % p256() >= p255() {
        x % p256() - p256()
    } else {
        x % p256()
    }
}

/// `2^e` as an integer.
pub open spec fn two(e: int) -> int {
    pow2(e as nat) as int
}

/// `(2^64)^k`.
pub open spec fn bpow(k: int) -> int
    decreases k,
{
    if k <= 0 {
        1
    } else {
        p64() * bpow(k - 1)
    }
}

/// The number whose 64-bit limbs, least significant first, are `s[from], .., s[to - 1]`.
pub open spec fn lval(s: Seq<u64>, from: int, to: int) -> int
    decreases to - from,
{
    if to <= from {
        0
    } else {
        lval(s, from, to - 1) + s[to - 1] * bpow(to - 1 - from)
    }
}

pub proof fn bpow_pos(k: int)
    ensures
        bpow(k) >= 1,
    decreases k,
{
    if k > 0 {
        bpow_pos(k - 1);
    }
}

pub proof fn bpow_add(a: int, b: int)
    requires
        a >= 0,
        b >= 0,
    ensures
        bpow(a + b) == bpow(a) * bpow(b),
    decreases a,
{
    if a > 0 {
        bpow_add(a - 1, b);
        let x = bpow(a - 1);
        let y = bpow(b);
        assert(bpow(a + b) == p64() * bpow(a - 1 + b));
        assert(p64() * (x * y) == (p64() * x) * y) by (nonlinear_arith);
    }
}

pub proof fn bpow_values()
    ensures
        bpow(0) == 1,
        bpow(1) == p64(),
        bpow(2) == p128(),
        bpow(3) == p192(),
        bpow(4) == p256(),
{
    reveal_with_fuel(bpow, 5);
}

/// A limb number is below the power of the base that its length gives.
pub proof fn lval_bound(s: Seq<u64>, from: int, to: int)
    requires
        from <= to,
    ensures
        0 <= lval(s, from, to) < bpow(to - from),
    decreases to - from,
{
    bpow_pos(to - from);
    if from < to {
        lval_bound(s, from, to - 1);
        let d = s[to - 1] as int;
        let p = bpow(to - 1 - from);
        let low = lval(s, from, to - 1);
        assert(0 <= low + d * p < p64() * p) by (nonlinear_arith)
            requires
                0 <= low < p,
                0 <= d < p64(),
        ;
    }
}

/// Limbs outside `from .. to` do not matter.
pub proof fn lval_same(s: Seq<u64>, t: Seq<u64>, from: int, to: int)
    requires
        forall|i: int| from <= i < to ==> s[i] == t[i],
    ensures
        lval(s, from, to) == lval(t, from, to),
    decreases to - from,
{
    if from < to {
        lval_same(s, t, from, to - 1);
    }
}

/// A limb number splits at any limb.
pub proof fn lval_split(s: Seq<u64>, from: int, mid: int, to: int)
    requires
        from <= mid <= to,
    ensures
        lval(s, from, to) == lval(s, from, mid) + bpow(mid - from) * lval(s, mid, to),
    decreases to - mid,
{
    if mid < to {
        lval_split(s, from, mid, to - 1);
        bpow_add(mid - from, to - 1 - mid);
        let p = bpow(mid - from);
        let q = bpow(to - 1 - mid);
        let low = lval(s, mid, to - 1);
        let d = s[to - 1] as int;
        assert(p * low + d * (p * q) == p * (low + d * q)) by (nonlinear_arith);
    } else {
        assert(bpow(mid - from) * 0 == 0) by (nonlinear_arith);
    }
}

/// Zero limbs make a zero number.
pub proof fn lval_zero(s: Seq<u64>, from: int, to: int)
    requires
        forall|i: int| from <= i < to ==> s[i] == 0,
    ensures
        lval(s, from, to) == 0,
    decreases to - from,
{
    if from < to {
        lval_zero(s, from, to - 1);
        assert(0 * bpow(to - 1 - from) == 0) by (nonlinear_arith);
    }
}

/// `x == q * d + r` with `0 <= r < d` fixes quotient and remainder.
pub proof fn div_unique(x: int, d: int, q: int, r: int)
    requires
        0 <= r < d,
        x == q * d + r,
    ensures
        x / d == q,
        x % d == r,
{
    vstd::arithmetic::div_mod::lemma_fundamental_div_mod_converse(x, d, q, r);
}

pub proof fn div_facts(x: int, d: int)
    requires
        d > 0,
    ensures
        x == (x / d) * d + x % d,
        0 <= x % d < d,
{
    vstd::arithmetic::div_mod::lemma_fundamental_div_mod(x, d);
    assert((x / d) * d == d * (x / d)) by (nonlinear_arith);
}

/// Both factors may be bounded separately.
pub proof fn mul_le(a: int, b: int, c: int, d: int)
    by (nonlinear_arith)
    requires
        0 <= a <= c,
        0 <= b <= d,
    ensures
        0 <= a * b <= c * d,
{
}

/// `64 - leading_zeros` is the bit length.
pub proof fn leading_zeros_64(x: u64)
    requires
        x > 0,
    ensures
        0 <= u64_leading_zeros(x) <= 63,
        two(63 - u64_leading_zeros(x)) <= x < two(64 - u64_leading_zeros(x)),
    decreases x,
{
    reveal(u64_leading_zeros);
    lemma2_to64();
    if x == 1 {
        assert(u64_leading_zeros(0) == 64);
        assert(u64_leading_zeros(1) == 63);
    } else {
        leading_zeros_64(x / 2);
        let k = 63 - u64_leading_zeros(x / 2);
        lemma_pow2_unfold((k + 1) as nat);
        lemma_pow2_unfold((k + 2) as nat);
        assert(x < 0x1_0000_0000_0000_0000int);
        if k + 1 > 63 {
            lemma_pow2_unfold(64);
            assert(false);
        }
    }
}


/// The number of trailing zeros is the exponent of the largest power of two
/// that divides.
pub proof fn trailing_zeros_64(x: u64)
    requires
        x > 0,
    ensures
        0 <= u64_trailing_zeros(x) <= 63,
        x as int % two(u64_trailing_zeros(x) as int) == 0,
        (x as int / two(u64_trailing_zeros(x) as int)) % 2 == 1,
{
    vstd::std_specs::bits::axiom_u64_trailing_zeros(x);
    let t = u64_trailing_zeros(x) as u64;
    vstd::bits::lemma_u64_shr_is_div(x, t);
    lemma_pow2_pos(t as nat);
    let y = x >> t;
    assert(y & 1 == 1 ==> y % 2 == 1) by (bit_vector);
    // shifting the low bits out on the left leaves nothing: x is a multiple
    let w = (64 - t) as u64;
    assert((x >> t) << t == x) by (bit_vector)
        requires
            t < 64,
            w == 64 - t,
            x << w == 0,
    ;
    let d = two(t as int);
    div_facts(x as int, d);
    let q = x as int / d;
    assert(q * d <= x);
    vstd::bits::lemma_u64_pow2_no_overflow(t as nat);
    assert((y as int) * d <= u64::MAX);
    vstd::bits::lemma_u64_shl_is_mul(y, t);
    assert(x as int == q * d);
}

pub proof fn two_pos(e: int)
    ensures
        two(e) >= 1,
{
    lemma_pow2_pos(e as nat);
}

pub proof fn two_add(a: int, b: int)
    requires
        a >= 0,
        b >= 0,
    ensures
        two(a + b) == two(a) * two(b),
{
    lemma_pow2_adds(a as nat, b as nat);
}

pub proof fn two_mono(a: int, b: int)
    requires
        0 <= a <= b,
    ensures
        two(a) <= two(b),
{
    if a < b {
        lemma_pow2_strictly_increases(a as nat, b as nat);
    }
}

pub proof fn two_step(e: int)
    requires
        e >= 0,
    ensures
        two(e + 1) == 2 * two(e),
        two(0) == 1,
{
    lemma_pow2_unfold((e + 1) as nat);
    lemma2_to64();
}

/// The powers of two that the code names.
pub proof fn two_values()
    ensures
        two(0) == 1,
        two(1) == 2,
        two(8) == 256,
        two(32) == 0x1_0000_0000,
        two(64) == p64(),
        two(96) == p96(),
        two(128) == p128(),
        two(192) == p192(),
        two(255) == p255(),
        two(256) == p256(),
{
    lemma2_to64();
    two_add(32, 64);
    assert(two(96) == p96()) by (nonlinear_arith)
        requires
            two(96) == two(32) * two(64),
            two(32) == 0x1_0000_0000,
            two(64) == p64(),
    ;
    two_add(64, 64);
    assert(two(128) == p128()) by (nonlinear_arith)
        requires
            two(128) == two(64) * two(64),
            two(64) == p64(),
    ;
    two_add(64, 128);
    assert(two(192) == p192()) by (nonlinear_arith)
        requires
            two(192) == two(64) * two(128),
            two(64) == p64(),
            two(128) == p128(),
    ;
    two_add(128, 128);
    assert(two(256) == p256()) by (nonlinear_arith)
        requires
            two(256) == two(128) * two(128),
            two(128) == p128(),
    ;
    two_step(255);
}

/// Exactly one exponent brackets a positive number.
pub proof fn log_unique(x: int, a: int, b: int)
    requires
        0 <= a,
        0 <= b,
        two(a) <= x < two(a + 1),
        two(b) <= x < two(b + 1),
    ensures
        a == b,
{
    if a < b {
        two_mono(a + 1, b);
    } else if b < a {
        two_mono(b + 1, a);
    }
}

/// Left shift of a 128-bit word drops what leaves the word.
pub proof fn shl_128(x: u128, s: u128)
    requires
        s < 128,
    ensures
        (x << s) == (x * two(s as int)) % p128(),
    decreases s,
{
    two_step(0);
    if s == 0 {
        assert(x << 0u128 == x) by (bit_vector);
        assert(x * 1 == x);
    } else {
        let t = (s - 1) as u128;
        shl_128(x, t);
        two_step(t as int);
        let y = x << t;
        assert(x << s == (y << 1u128)) by (bit_vector)
            requires
                y == x << t,
                0 < s < 128,
                t == s - 1,
        ;
        assert((y << 1u128) == (if y < 0x8000_0000_0000_0000_0000_0000_0000_0000u128 {
            y * 2
        } else {
            (y - 0x8000_0000_0000_0000_0000_0000_0000_0000u128) * 2
        })) by (bit_vector);
        assert((y << 1u128) == (y * 2) % p128());
        let w = x * two(t as int);
        assert(x * two(s as int) == w * 2) by (nonlinear_arith)
            requires
                w == x * two(t as int),
                two(s as int) == 2 * two(t as int),
        ;
        assert(((w % p128()) * 2) % p128() == (w * 2) % p128());
    }
}

/// `(x mod m)` may be used for `x` in a sum modulo `m`.
pub proof fn wrap_add(a: int, b: int)
    ensures
        wrap(wrap(a) + b) == wrap(a + b),
        wrap(a + wrap(b)) == wrap(a + b),
        wrap(wrap(a) - b) == wrap(a - b),
        wrap(a - wrap(b)) == wrap(a - b),
        wrap(wrap(a)) == wrap(a),
{
    vstd::arithmetic::div_mod::lemma_add_mod_noop(a, b, p256());
    vstd::arithmetic::div_mod::lemma_add_mod_noop(wrap(a), b, p256());
    vstd::arithmetic::div_mod::lemma_add_mod_noop(a, wrap(b), p256());
    vstd::arithmetic::div_mod::lemma_sub_mod_noop(a, b, p256());
    vstd::arithmetic::div_mod::lemma_sub_mod_noop(wrap(a), b, p256());
    vstd::arithmetic::div_mod::lemma_sub_mod_noop(a, wrap(b), p256());
    vstd::arithmetic::div_mod::lemma_mod_twice(a, p256());
    vstd::arithmetic::div_mod::lemma_mod_twice(b, p256());
}

/// `(x mod m)` may be used for `x` in a product modulo `m`.
pub proof fn wrap_mul(a: int, b: int)
    ensures
        wrap(wrap(a) * b) == wrap(a * b),
        wrap(a * wrap(b)) == wrap(a * b),
{
    vstd::arithmetic::div_mod::lemma_mul_mod_noop_left(a, b, p256());
    vstd::arithmetic::div_mod::lemma_mul_mod_noop_right(a, b, p256());
}

/// The signed representative is congruent and fixed on its range.
pub proof fn wrap_signed_facts(x: int)
    ensures
        -p255() <= wrap_signed(x) < p255(),
        wrap(wrap_signed(x)) == wrap(x),
        wrap_signed(wrap(x)) == wrap_signed(x),
        -p255() <= x < p255() ==> wrap_signed(x) == x,
{
}

/// Congruent integers have the same representatives.
pub proof fn congruent(a: int, b: int, k: int)
    requires
        a == b + k * p256(),
    ensures
        wrap(a) == wrap(b),
        wrap_signed(a) == wrap_signed(b),
{
    div_facts(b, p256());
    div_unique(a, p256(), b / p256() + k, b % p256());
}

/// Representatives may be used in sums and differences.
pub proof fn signed_sum(a: int, b: int)
    ensures
        wrap_signed(a + wrap_signed(b)) == wrap_signed(a + b),
        wrap_signed(a - wrap_signed(b)) == wrap_signed(a - b),
        wrap_signed(a + wrap_signed(wrap(b))) == wrap_signed(a + b),
        wrap_signed(a - wrap_signed(wrap(b))) == wrap_signed(a - b),
        wrap_signed(wrap(a) - wrap(b)) == wrap_signed(a - b),
        wrap_signed(wrap(a - b)) == wrap_signed(a - b),
{
    div_facts(a, p256());
    div_facts(b, p256());
    let ka = a / p256();
    let kb = b / p256();
    let c = if b % p256() >= p255() {
        kb + 1
    } else {
        kb
    };
    assert(wrap_signed(b) == b - c * p256());
    wrap_signed_facts(b);
    congruent(a + wrap_signed(b), a + b, -c);
    congruent(a - wrap_signed(b), a - b, c);
    congruent(wrap(a) - wrap(b), a - b, kb - ka);
    wrap_signed_facts(a - b);
}

} // verus!
