//! 256-bit integers, the constants of the pool arithmetic and the fee tiers.
use crate::arith::{
    bpow, bpow_values, div_facts, div_unique, leading_zeros_64, log_unique, lval, p128, p192, p255,
    p256, p64, p96, shl_128, trailing_zeros_64, two, two_add, two_mono, two_pos, two_step,
    two_values, wrap, wrap_add, wrap_mul, wrap_signed, wrap_signed_facts,
};
use crate::limbs::div_limbs;
use crate::text::{
    dec, dec_reads_back, dec_signed, dec_split, digit_of, number, push_dec, push_dec_padded,
    strip_radix, stripped_radix, ten_pow, trim, trim_of_solid, trimmed_chars,
};
use std::cmp::Ordering;
use std::ops::{Add, BitAnd, BitOr, Div, Mul, Neg, Not, Rem, Shl, Shr, Sub};
use vstd::prelude::*;
use vstd::std_specs::convert::FromSpecImpl;
use vstd::std_specs::ops::{
    AddSpecImpl, BitAndSpecImpl, BitOrSpecImpl, DivSpecImpl, MulSpecImpl, NegSpecImpl, NotSpecImpl,
    RemSpecImpl, ShlSpecImpl, ShrSpecImpl, SubSpecImpl,
};
use vstd::string::*;

verus! {

/// An unsigned 256-bit integer, as two 128-bit halves.
#[derive(Copy, Clone, Debug, PartialEq, Eq, Structural, Ord, Hash)]
pub struct U256 {
    pub hi: u128,
    pub lo: u128,
}

impl View for U256 {
    type V = int;

    open spec fn view(&self) -> int {
        self.lo + self.hi * p128()
    }
}

/// The 256-bit integer that `n` wraps to.
pub open spec fn u256(n: int) -> U256 {
    U256 { hi: (wrap(n) / p128()) as u128, lo: (wrap(n) % p128()) as u128 }
}

/// A 256-bit integer is the only one with its view.
pub proof fn u256_of_view(x: U256, n: int)
    requires
        x@ == wrap(n),
    ensures
        x == u256(n),
{
}

/// The exact product of two 128-bit words.
fn mul_wide(a: u128, b: u128) -> (r: U256)
    ensures
        r@ == a * b,
{
    let a0: u128 = a % 0x1_0000_0000_0000_0000u128;
    let a1: u128 = a / 0x1_0000_0000_0000_0000u128;
    let b0: u128 = b % 0x1_0000_0000_0000_0000u128;
    let b1: u128 = b / 0x1_0000_0000_0000_0000u128;
    proof {
        word_product(a0 as int, b0 as int);
        word_product(a0 as int, b1 as int);
        word_product(a1 as int, b0 as int);
        word_product(a1 as int, b1 as int);
    }
    let p00: u128 = a0 * b0;
    let mid: u128 = a0 * b1 + p00 / 0x1_0000_0000_0000_0000u128;
    let mid2: u128 = a1 * b0 + mid % 0x1_0000_0000_0000_0000u128;
    let lo: u128 = (mid2 % 0x1_0000_0000_0000_0000u128) * 0x1_0000_0000_0000_0000u128 + p00
        % 0x1_0000_0000_0000_0000u128;
    let ghost top = a1 * b1 + mid as int / p64() + mid2 as int / p64();
    proof {
        assert(a * b == a1 * b1 * p128() + (a0 * b1 + a1 * b0) * p64() + a0 * b0)
            by (nonlinear_arith)
            requires
                a == a1 * p64() + a0,
                b == b1 * p64() + b0,
        ;
        assert(lo + top * p128() == a * b);
        assert(a * b < p128() * p128()) by (nonlinear_arith)
            requires
                0 <= a < p128(),
                0 <= b < p128(),
        ;
        assert(top < p128());
    }
    let hi: u128 = a1 * b1 + mid / 0x1_0000_0000_0000_0000u128 + mid2
        / 0x1_0000_0000_0000_0000u128;
    U256 { hi, lo }
}

proof fn word_product(a: int, b: int)
    by (nonlinear_arith)
    requires
        0 <= a < p64(),
        0 <= b < p64(),
    ensures
        0 <= a * b <= (p64() - 1) * (p64() - 1),
{
}

/// The sum of three 128-bit words, with the carry beside it.
fn add3(a: u128, b: u128, c: u128) -> (r: (u128, u128))
    ensures
        a + b + c == r.0 + r.1 * p128(),
        r.1 <= 2,
{
    let s: u128 = a.wrapping_add(b);
    let c1: u128 = if s < a {
        1
    } else {
        0
    };
    let t: u128 = s.wrapping_add(c);
    let c2: u128 = if t < s {
        1
    } else {
        0
    };
    (t, c1 + c2)
}

/// The four 64-bit limbs of `x` with four zero limbs above them.
fn limbs4(x: U256) -> (r: [u64; 8])
    ensures
        lval(r@, 0, 4) == x@,
        lval(r@, 0, 8) == x@,
        forall|i: int| 4 <= i < 8 ==> r[i] == 0,
{
    limbs8(x, U256 { hi: 0, lo: 0 })
}

/// The eight 64-bit limbs of `lo + hi * 2^256`.
fn limbs8(lo: U256, hi: U256) -> (r: [u64; 8])
    ensures
        lval(r@, 0, 4) == lo@,
        lval(r@, 0, 8) == lo@ + hi@ * p256(),
        hi@ == 0 ==> forall|i: int| 4 <= i < 8 ==> r[i] == 0,
{
    let r: [u64; 8] = [
        (lo.lo % 0x1_0000_0000_0000_0000u128) as u64,
        (lo.lo / 0x1_0000_0000_0000_0000u128) as u64,
        (lo.hi % 0x1_0000_0000_0000_0000u128) as u64,
        (lo.hi / 0x1_0000_0000_0000_0000u128) as u64,
        (hi.lo % 0x1_0000_0000_0000_0000u128) as u64,
        (hi.lo / 0x1_0000_0000_0000_0000u128) as u64,
        (hi.hi % 0x1_0000_0000_0000_0000u128) as u64,
        (hi.hi / 0x1_0000_0000_0000_0000u128) as u64,
    ];
    proof {
        limbs_value(r@, 0);
        limbs_value(r@, 4);
        crate::arith::lval_split(r@, 0, 4, 8);
        bpow_values();
        let h = lval(r@, 4, 8);
        assert(bpow(4) * h == h * p256()) by (nonlinear_arith)
            requires
                bpow(4) == p256(),
        ;
    }
    r
}

/// Four limbs written out.
proof fn limbs_value(s: Seq<u64>, from: int)
    ensures
        lval(s, from, from + 4) == s[from] + s[from + 1] * p64() + s[from + 2] * p128() + s[from
            + 3] * p192(),
{
    bpow_values();
    reveal_with_fuel(lval, 5);
    assert(s[from] * bpow(0) == s[from]) by (nonlinear_arith)
        requires
            bpow(0) == 1,
    ;
    assert(s[from + 1] * bpow(1) == s[from + 1] * p64()) by (nonlinear_arith)
        requires
            bpow(1) == p64(),
    ;
    assert(s[from + 2] * bpow(2) == s[from + 2] * p128()) by (nonlinear_arith)
        requires
            bpow(2) == p128(),
    ;
    assert(s[from + 3] * bpow(3) == s[from + 3] * p192()) by (nonlinear_arith)
        requires
            bpow(3) == p192(),
    ;
}

/// The 256-bit integer with the limbs `q`.
fn from_limbs(q: [u64; 4]) -> (r: U256)
    ensures
        r@ == lval(q@, 0, 4),
{
    proof {
        limbs_value(q@, 0);
    }
    U256 {
        lo: q[0] as u128 + (q[1] as u128) * 0x1_0000_0000_0000_0000u128,
        hi: q[2] as u128 + (q[3] as u128) * 0x1_0000_0000_0000_0000u128,
    }
}

/// The position of the highest set bit of a limb.
fn top_bit_64(x: u64) -> (r: u32)
    requires
        x > 0,
    ensures
        r < 64,
        two(r as int) <= x < two(r + 1),
{
    let z: u32 = x.leading_zeros();
    proof {
        leading_zeros_64(x);
    }
    63 - z
}

/// The position of the highest set bit of a word.
fn top_bit_128(x: u128) -> (r: u32)
    requires
        x > 0,
    ensures
        r < 128,
        two(r as int) <= x < two(r + 1),
{
    let h: u64 = (x / 0x1_0000_0000_0000_0000u128) as u64;
    let l: u64 = (x % 0x1_0000_0000_0000_0000u128) as u64;
    if h > 0 {
        let r: u32 = top_bit_64(h);
        proof {
            two_values();
            scale_bracket(h as int, l as int, r as int, 64);
        }
        r + 64
    } else {
        top_bit_64(l)
    }
}

/// Appending `k` low bits moves the highest set bit up by `k`.
proof fn scale_bracket(h: int, l: int, r: int, k: int)
    requires
        r >= 0,
        k >= 0,
        two(r) <= h < two(r + 1),
        0 <= l < two(k),
    ensures
        two(r + k) <= h * two(k) + l < two(r + k + 1),
{
    two_add(r, k);
    two_add(r + 1, k);
    let t = two(k);
    assert(two(r) * t <= h * t + l < two(r + 1) * t) by (nonlinear_arith)
        requires
            two(r) <= h,
            h + 1 <= two(r + 1),
            0 <= l < t,
    ;
}

/// The exponent of the largest power of two that divides a word.
fn low_bit_128(x: u128) -> (r: u32)
    requires
        x > 0,
    ensures
        r < 128,
        x as int % two(r as int) == 0,
        (x as int / two(r as int)) % 2 == 1,
{
    let h: u64 = (x / 0x1_0000_0000_0000_0000u128) as u64;
    let l: u64 = (x % 0x1_0000_0000_0000_0000u128) as u64;
    if l > 0 {
        let r: u32 = l.trailing_zeros();
        proof {
            trailing_zeros_64(l);
            two_values();
            low_bit_of_sum(h as int, l as int, r as int, 64);
        }
        r
    } else {
        let r: u32 = h.trailing_zeros();
        proof {
            trailing_zeros_64(h);
            two_values();
            low_bit_of_multiple(h as int, r as int, 64);
        }
        r + 64
    }
}

/// The lowest set bit of `h * 2^k + l` is that of `l`, where `l` has one.
proof fn low_bit_of_sum(h: int, l: int, r: int, k: int)
    requires
        0 <= r < k,
        h >= 0,
        l > 0,
        l % two(r) == 0,
        (l / two(r)) % 2 == 1,
    ensures
        (h * two(k) + l) % two(r) == 0,
        ((h * two(k) + l) / two(r)) % 2 == 1,
{
    let d = two(r);
    two_pos(r);
    two_add(r, k - r);
    two_step(k - r - 1);
    let t = two(k - r - 1);
    div_facts(l, d);
    let q = l / d;
    let x = h * two(k) + l;
    assert(x == (h * (2 * t) + q) * d) by (nonlinear_arith)
        requires
            x == h * (d * (2 * t)) + l,
            l == q * d,
    ;
    div_unique(x, d, h * (2 * t) + q, 0);
    assert(h * (2 * t) == 2 * (h * t)) by (nonlinear_arith);
}

/// The lowest set bit of `h * 2^k` is that of `h`, moved up by `k`.
proof fn low_bit_of_multiple(h: int, r: int, k: int)
    requires
        0 <= r,
        0 <= k,
        h > 0,
        h % two(r) == 0,
        (h / two(r)) % 2 == 1,
    ensures
        (h * two(k)) % two(r + k) == 0,
        ((h * two(k)) / two(r + k)) % 2 == 1,
{
    let d = two(r);
    two_pos(r);
    two_pos(r + k);
    two_add(r, k);
    div_facts(h, d);
    let q = h / d;
    assert(h * two(k) == q * two(r + k)) by (nonlinear_arith)
        requires
            h == q * d,
            two(r + k) == d * two(k),
    ;
    div_unique(h * two(k), two(r + k), q, 0);
}

/// Shifting right by `s` bits divides by `2^s`.
proof fn shr_parts(hi: int, lo: int, s: int)
    requires
        0 < s < 128,
        0 <= lo,
        0 <= hi,
    ensures
        (lo + hi * p128()) / two(s) == lo / two(s) + (hi % two(s)) * two(128 - s) + (hi / two(s))
            * p128(),
{
    let d = two(s);
    let e = two(128 - s);
    two_pos(s);
    two_add(s, 128 - s);
    two_values();
    div_facts(hi, d);
    div_facts(lo, d);
    let x = lo + hi * p128();
    let q = lo / d + (hi % d) * e + (hi / d) * p128();
    assert(x == q * d + lo % d) by (nonlinear_arith)
        requires
            x == lo + hi * p128(),
            p128() == d * e,
            hi == (hi / d) * d + hi % d,
            lo == (lo / d) * d + lo % d,
            q == lo / d + (hi % d) * e + (hi / d) * p128(),
    ;
    div_unique(x, d, q, lo % d);
}

/// The bits of a word that a left shift by `128 - s` keeps are its low `s` bits.
proof fn low_bits(x: int, s: int)
    requires
        0 < s < 128,
        0 <= x,
    ensures
        (x * two(128 - s)) % p128() == (x % two(s)) * two(128 - s),
{
    let d = two(s);
    let e = two(128 - s);
    two_pos(s);
    two_pos(128 - s);
    two_add(s, 128 - s);
    two_values();
    div_facts(x, d);
    assert(x * e == (x / d) * p128() + (x % d) * e) by (nonlinear_arith)
        requires
            x == (x / d) * d + x % d,
            p128() == d * e,
    ;
    assert(0 <= (x % d) * e < p128()) by (nonlinear_arith)
        requires
            0 <= x % d < d,
            p128() == d * e,
            e >= 1,
    ;
    div_unique(x * e, p128(), x / d, (x % d) * e);
}

impl U256 {
    /// Zero.
    #[allow(non_snake_case)]
    pub fn ZERO() -> (r: U256)
        ensures
            r@ == 0,
            r == u256(0),
    {
        U256 { hi: 0, lo: 0 }
    }

    /// One.
    #[allow(non_snake_case)]
    pub fn ONE() -> (r: U256)
        ensures
            r@ == 1,
    {
        U256 { hi: 0, lo: 1 }
    }

    /// The largest value, `2^256 - 1`.
    #[allow(non_snake_case)]
    pub fn MAX() -> (r: U256)
        ensures
            r@ == p256() - 1,
    {
        U256 { hi: u128::MAX, lo: u128::MAX }
    }

    /// `lo + hi * 2^128`.
    pub fn new(lo: u128, hi: u128) -> (r: Self)
        ensures
            r == (U256 { hi, lo }),
            r@ == lo + hi * p128(),
    {
        U256 { hi, lo }
    }

    pub fn from_u128(v: u128) -> (r: Self)
        ensures
            r@ == v,
    {
        U256 { hi: 0, lo: v }
    }

    pub fn from_u64(v: u64) -> (r: Self)
        ensures
            r@ == v,
    {
        U256 { hi: 0, lo: v as u128 }
    }

    pub fn is_zero(&self) -> (r: bool)
        ensures
            r == (self@ == 0),
    {
        self.lo == 0 && self.hi == 0
    }

    /// The number of zero bits above the highest set bit; 256 for zero.
    pub fn leading_zeros(&self) -> (r: u32)
        ensures
            self@ == 0 ==> r == 256,
            self@ != 0 ==> r < 256 && two(255 - r) <= self@ < two(256 - r),
    {
        if self.hi != 0 {
            let t: u32 = top_bit_128(self.hi);
            proof {
                two_values();
                scale_bracket(self.hi as int, self.lo as int, t as int, 128);
            }
            127 - t
        } else if self.lo != 0 {
            255 - top_bit_128(self.lo)
        } else {
            256
        }
    }

    /// The number of zero bits below the lowest set bit; 256 for zero.
    pub fn trailing_zeros(&self) -> (r: u32)
        ensures
            self@ == 0 ==> r == 256,
            self@ != 0 ==> r < 256 && self@ % two(r as int) == 0 && (self@ / two(r as int)) % 2
                == 1,
    {
        if self.lo != 0 {
            let r: u32 = low_bit_128(self.lo);
            proof {
                two_values();
                low_bit_of_sum(self.hi as int, self.lo as int, r as int, 128);
            }
            r
        } else if self.hi != 0 {
            let r: u32 = low_bit_128(self.hi);
            proof {
                two_values();
                low_bit_of_multiple(self.hi as int, r as int, 128);
            }
            128 + r
        } else {
            256
        }
    }

    /// Whether the value is a power of two.
    pub fn is_power_of_two(&self) -> (r: bool)
        ensures
            r == exists|k: int| 0 <= k < 256 && self@ == #[trigger] two(k),
    {
        if self.is_zero() {
            proof {
                assert forall|k: int| 0 <= k < 256 implies self@ != #[trigger] two(k) by {
                    two_pos(k);
                }
            }
            return false;
        }
        let l: u32 = self.leading_zeros();
        let t: u32 = self.trailing_zeros();
        let r: bool = l + t == 255;
        proof {
            let x = self@;
            let m = 255 - l;
            let d = two(t as int);
            two_pos(t as int);
            div_facts(x, d);
            let q = x / d;
            if r {
                // 2^m <= q * 2^m < 2 * 2^m
                two_step(m);
                assert(q == 1) by (nonlinear_arith)
                    requires
                        x == q * d,
                        d <= x < 2 * d,
                        d >= 1,
                ;
                assert(x == d) by (nonlinear_arith)
                    requires
                        x == q * d,
                        q == 1,
                ;
                assert(t == m);
                assert(x == two(m));
            } else {
                assert forall|k: int| 0 <= k < 256 implies x != #[trigger] two(k) by {
                    if x == two(k) {
                        two_step(k);
                        log_unique(x, m, k);
                        if t < k {
                            two_add(t as int, k - t);
                            two_step(k - t - 1);
                            let e = two(k - t - 1);
                            assert(x == (2 * e) * d) by (nonlinear_arith)
                                requires
                                    x == d * (2 * e),
                            ;
                            div_unique(x, d, 2 * e, 0);
                            assert(false);
                        } else {
                            two_mono(k + 1, t as int);
                            assert(q >= 1) by (nonlinear_arith)
                                requires
                                    x == q * d,
                                    x > 0,
                                    d >= 1,
                            ;
                            assert(x >= d) by (nonlinear_arith)
                                requires
                                    x == q * d,
                                    q >= 1,
                                    d >= 1,
                            ;
                            assert(false);
                        }
                    }
                }
            }
        }
        r
    }

    /// The position of the highest set bit.
    pub fn msb(&self) -> (r: u32)
        requires
            self@ != 0,
        ensures
            r < 256,
            two(r as int) <= self@ < two(r + 1),
    {
        255 - self.leading_zeros()
    }

    /// The sum modulo 2^256 and whether it was cut.
    pub fn overflowing_add(self, rhs: U256) -> (r: (U256, bool))
        ensures
            r.0@ == wrap(self@ + rhs@),
            r.1 == (self@ + rhs@ >= p256()),
    {
        let lo: u128 = self.lo.wrapping_add(rhs.lo);
        let carry: u128 = if lo < self.lo {
            1
        } else {
            0
        };
        let mid: u128 = self.hi.wrapping_add(rhs.hi);
        let hi: u128 = mid.wrapping_add(carry);
        (U256 { hi, lo }, mid < self.hi || hi < mid)
    }

    /// The difference modulo 2^256 and whether it went below zero.
    pub fn overflowing_sub(self, rhs: U256) -> (r: (U256, bool))
        ensures
            r.0@ == wrap(self@ - rhs@),
            r.1 == (self@ < rhs@),
    {
        let lo: u128 = self.lo.wrapping_sub(rhs.lo);
        let borrow: u128 = if self.lo < rhs.lo {
            1
        } else {
            0
        };
        let mid: u128 = self.hi.wrapping_sub(rhs.hi);
        let hi: u128 = mid.wrapping_sub(borrow);
        (U256 { hi, lo }, self.hi < rhs.hi || mid < borrow)
    }

    /// The product modulo 2^256.
    pub fn wrapping_mul(self, rhs: U256) -> (r: U256)
        ensures
            r@ == wrap(self@ * rhs@),
    {
        let (lo, hi) = self.full_mul(rhs);
        proof {
            div_unique(self@ * rhs@, p256(), hi@, lo@);
        }
        lo
    }

    /// The exact product as `(low 256 bits, high 256 bits)`.
    pub fn full_mul(self, rhs: U256) -> (r: (U256, U256))
        ensures
            r.0@ + r.1@ * p256() == self@ * rhs@,
    {
        let p: U256 = mul_wide(self.lo, rhs.lo);
        let q: U256 = mul_wide(self.lo, rhs.hi);
        let s: U256 = mul_wide(self.hi, rhs.lo);
        let t: U256 = mul_wide(self.hi, rhs.hi);
        let (l1, c1) = add3(p.hi, q.lo, s.lo);
        let (m2, c2) = add3(q.hi, s.hi, t.lo);
        let (l2, c3) = add3(m2, c1, 0);
        let ghost top = t.hi + c2 + c3;
        proof {
            let a = self@;
            let b = rhs@;
            assert(a * b == p@ + (q@ + s@) * p128() + t@ * p256()) by (nonlinear_arith)
                requires
                    a == self.lo + self.hi * p128(),
                    b == rhs.lo + rhs.hi * p128(),
                    p@ == self.lo * rhs.lo,
                    q@ == self.lo * rhs.hi,
                    s@ == self.hi * rhs.lo,
                    t@ == self.hi * rhs.hi,
            ;
            assert(a * b == p.lo + l1 * p128() + l2 * p256() + top * (p256() * p128()));
            assert(a * b < p256() * p256()) by (nonlinear_arith)
                requires
                    0 <= a < p256(),
                    0 <= b < p256(),
            ;
            assert(top < p128());
        }
        let l3: u128 = t.hi + c2 + c3;
        (U256 { lo: p.lo, hi: l1 }, U256 { lo: l2, hi: l3 })
    }

    /// The low 256 bits of the quotient of `num_lo + num_hi * 2^256` by `divisor`.
    pub fn div_512(num_lo: U256, num_hi: U256, divisor: U256) -> (r: U256)
        requires
            divisor@ != 0,
        ensures
            r@ == wrap((num_lo@ + num_hi@ * p256()) / divisor@),
    {
        if num_hi.is_zero() {
            if divisor.hi == 0 && num_lo.hi == 0 {
                proof {
                    quotient_small(num_lo@, divisor@);
                }
                return U256::from_u128(num_lo.lo / divisor.lo);
            }
            return U256::div_256_by_256(num_lo, divisor);
        }
        if divisor.is_power_of_two() {
            let k: u32 = divisor.trailing_zeros();
            proof {
                power_of_two_exponent(divisor@, k as int);
            }
            if k == 0 {
                proof {
                    unit_quotient(num_lo@ + num_hi@ * p256());
                    div_unique(num_lo@ + num_hi@ * p256(), p256(), num_hi@, num_lo@);
                }
                return num_lo;
            }
            let low: U256 = num_lo >> k;
            let high: U256 = num_hi << (256 - k);
            let r: U256 = low + high;
            proof {
                let d = two(k as int);
                let e = two(256 - k);
                two_pos(k as int);
                two_add(k as int, 256 - k);
                two_values();
                div_facts(num_lo@, d);
                let n = num_lo@ + num_hi@ * p256();
                assert(n == (num_lo@ / d + num_hi@ * e) * d + num_lo@ % d) by (nonlinear_arith)
                    requires
                        n == num_lo@ + num_hi@ * (d * e),
                        num_lo@ == (num_lo@ / d) * d + num_lo@ % d,
                ;
                div_unique(n, d, num_lo@ / d + num_hi@ * e, num_lo@ % d);
                wrap_add(num_lo@ / d, num_hi@ * e);
            }
            return r;
        }
        let n: [u64; 8] = limbs8(num_lo, num_hi);
        let d: [u64; 8] = limbs4(divisor);
        from_limbs(div_limbs(&n, &d))
    }

    fn div_256_by_256(num: U256, divisor: U256) -> (r: U256)
        requires
            divisor@ != 0,
        ensures
            r@ == num@ / divisor@,
            r@ == wrap(num@ / divisor@),
    {
        let n: [u64; 8] = limbs4(num);
        let d: [u64; 8] = limbs4(divisor);
        proof {
            quotient_small(num@, divisor@);
        }
        from_limbs(div_limbs(&n, &d))
    }

    /// The number that the decimal digits in `s`, white space around them left
    /// out, spell modulo 2^256.
    pub fn from_dec_str(s: &str) -> (r: Self)
        requires
            number(trim(s@), 10) is Some,
        ensures
            r@ == wrap(number(trim(s@), 10)->0),
    {
        let v: Vec<char> = trimmed_chars(s);
        match parse_digits(&v, 10) {
            Some(r) => r,
            None => U256::ZERO(),
        }
    }

    /// As `from_dec_str`; `None` where a character is no decimal digit.
    pub fn try_from_dec_str(s: &str) -> (r: Option<Self>)
        ensures
            r is Some == number(trim(s@), 10) is Some,
            r matches Some(x) ==> x@ == wrap(number(trim(s@), 10)->0),
    {
        let v: Vec<char> = trimmed_chars(s);
        parse_digits(&v, 10)
    }

    /// The number that the hexadecimal digits in `s` spell modulo 2^256; white
    /// space around the text and `0x`, then `0X`, in front are left out.
    pub fn from_hex_str(s: &str) -> (r: Self)
        requires
            number(strip_radix(strip_radix(trim(s@), 'x'), 'X'), 16) is Some,
        ensures
            r@ == wrap(number(strip_radix(strip_radix(trim(s@), 'x'), 'X'), 16)->0),
    {
        let v: Vec<char> = trimmed_chars(s);
        let v: Vec<char> = stripped_radix(&v, 'x');
        let v: Vec<char> = stripped_radix(&v, 'X');
        match parse_digits(&v, 16) {
            Some(r) => r,
            None => U256::ZERO(),
        }
    }

    /// The value in decimal.
    pub fn to_dec_string(&self) -> (r: String)
        ensures
            r@ == dec(self@),
    {
        let mut out: String = String::new();
        push_dec_u256(&mut out, *self);
        assert(out@ =~= dec(self@));
        out
    }

    /// The 32 bytes of the value, least significant first.
    pub fn to_le_bytes(&self) -> (r: [u8; 32])
        ensures
            bytes_value(r@, 32) == self@,
    {
        let mut bytes: [u8; 32] = [0u8; 32];
        let mut lo: u128 = self.lo;
        let mut hi: u128 = self.hi;
        let mut i: usize = 0;
        proof {
            unit_quotient(lo as int);
        }
        while i < 16
            invariant
                i <= 16,
                bytes_value(bytes@, i as int) + lo * two(8 * i) == self.lo,
                0 <= lo,
            decreases 16 - i,
        {
            let ghost before = bytes@;
            let ghost old_lo = lo as int;
            bytes[i] = (lo % 256) as u8;
            lo = lo / 256;
            proof {
                bytes_same(before, bytes@, i as int);
                byte_step(bytes_value(bytes@, i as int), old_lo, i as int);
            }
            i = i + 1;
        }
        proof {
            two_values();
            assert(lo == 0) by {
                bytes_bound(bytes@, 16);
                assert(lo * p128() < p128());
            }
            assert(hi * 1 == hi);
        }
        let ghost low = bytes@;
        while i < 32
            invariant
                16 <= i <= 32,
                bytes_value(bytes@, i as int) + hi * two(8 * i) == self@,
            decreases 32 - i,
        {
            let ghost before = bytes@;
            let ghost old_hi = hi as int;
            bytes[i] = (hi % 256) as u8;
            hi = hi / 256;
            proof {
                bytes_same(before, bytes@, i as int);
                byte_step(bytes_value(bytes@, i as int), old_hi, i as int);
            }
            i = i + 1;
        }
        proof {
            two_values();
            bytes_bound(bytes@, 32);
            let h = hi as int;
            assert(h == 0) by (nonlinear_arith)
                requires
                    0 <= bytes_value(bytes@, 32),
                    bytes_value(bytes@, 32) + h * p256() < p256(),
                    h >= 0,
            ;
        }
        bytes
    }

    /// The value of the first 32 bytes, least significant first.
    pub fn from_le_bytes(bytes: &[u8]) -> (r: Self)
        requires
            bytes@.len() >= 32,
        ensures
            r@ == bytes_value(bytes@, 32),
    {
        let lo: u128 = word_from_bytes(bytes, 0);
        let hi: u128 = word_from_bytes(bytes, 16);
        proof {
            bytes_split(bytes@, 16, 32);
            assert(bytes@.skip(0) =~= bytes@);
            two_values();
            assert(bytes_value(bytes@.skip(16), 16) * two(128) == hi * p128());
        }
        U256 { hi, lo }
    }

    /// The same bits read as a signed integer.
    pub fn as_i256(self) -> (r: I256)
        ensures
            r == I256(self),
            r@ == wrap_signed(self@),
    {
        I256(self)
    }

    /// The value as a 128-bit word.
    pub fn as_u128(&self) -> (r: u128)
        requires
            self@ < p128(),
        ensures
            r == self@,
    {
        self.lo
    }

    /// The low 32 bits.
    pub fn low_u32(&self) -> (r: u32)
        ensures
            r == self@ % 0x1_0000_0000,
    {
        (self.lo % 0x1_0000_0000u128) as u32
    }
}

/// The number whose bytes, least significant first, are the first `n` of `s`.
pub open spec fn bytes_value(s: Seq<u8>, n: int) -> int
    decreases n,
{
    if n <= 0 {
        0
    } else {
        bytes_value(s, n - 1) + s[n - 1] * two(8 * (n - 1))
    }
}

proof fn bytes_same(s: Seq<u8>, t: Seq<u8>, n: int)
    requires
        forall|i: int| 0 <= i < n ==> s[i] == t[i],
    ensures
        bytes_value(s, n) == bytes_value(t, n),
    decreases n,
{
    if n > 0 {
        bytes_same(s, t, n - 1);
    }
}

proof fn bytes_bound(s: Seq<u8>, n: int)
    requires
        n >= 0,
    ensures
        0 <= bytes_value(s, n) < two(8 * n),
    decreases n,
{
    two_values();
    if n > 0 {
        bytes_bound(s, n - 1);
        two_add(8 * (n - 1), 8);
        let b = s[n - 1] as int;
        let t = two(8 * (n - 1));
        let low = bytes_value(s, n - 1);
        assert(0 <= low + b * t < t * 256) by (nonlinear_arith)
            requires
                0 <= low < t,
                0 <= b <= 255,
        ;
    }
}

/// Splitting off one byte keeps the value.
proof fn byte_step(low: int, x: int, i: int)
    requires
        i >= 0,
        x >= 0,
    ensures
        low + x * two(8 * i) == low + (x % 256) * two(8 * i) + (x / 256) * two(8 * (i + 1)),
{
    two_add(8 * i, 8);
    two_values();
    let t = two(8 * i);
    assert(x * t == (x % 256) * t + (x / 256) * (t * 256)) by (nonlinear_arith)
        requires
            x == (x / 256) * 256 + x % 256,
    ;
}

proof fn bytes_split(s: Seq<u8>, k: int, n: int)
    requires
        0 <= k <= n <= s.len(),
    ensures
        bytes_value(s, n) == bytes_value(s, k) + bytes_value(s.skip(k), n - k) * two(8 * k),
    decreases n - k,
{
    if k < n {
        bytes_split(s, k, n - 1);
        two_add(8 * (n - 1 - k), 8 * k);
        let low = bytes_value(s.skip(k), n - 1 - k);
        let b = s[n - 1] as int;
        let t = two(8 * k);
        let e = two(8 * (n - 1 - k));
        assert(s.skip(k)[n - 1 - k] == s[n - 1]);
        assert((low + b * e) * t == low * t + b * (e * t)) by (nonlinear_arith);
    }
}

/// The 16 bytes from `from` on as one word, least significant first.
fn word_from_bytes(bytes: &[u8], from: usize) -> (r: u128)
    requires
        from + 16 <= bytes@.len(),
    ensures
        r == bytes_value(bytes@.skip(from as int), 16),
{
    let ghost s = bytes@.skip(from as int);
    let n: usize = bytes.len();
    let mut r: u128 = 0;
    let mut i: usize = 16;
    proof {
        two_values();
    }
    // the bytes from `i` on, counted in units of byte `i`
    while i > 0
        invariant
            i <= 16,
            from + 16 <= n == bytes@.len(),
            s == bytes@.skip(from as int),
            r < two(8 * (16 - i)),
            bytes_value(s, 16) == bytes_value(s, i as int) + r * two(8 * i),
        decreases i,
    {
        i = i - 1;
        let b: u8 = bytes[from + i];
        proof {
            assert(b == s[i as int]);
            two_add(8 * (15 - i), 8);
            two_add(8 * i, 8);
            two_values();
            two_mono(8 * (16 - i), 128);
            let t = two(8 * i);
            assert((r * 256 + b) * t == r * (t * 256) + b * t) by (nonlinear_arith);
        }
        r = r * 256 + b as u128;
    }
    proof {
        unit_quotient(r as int);
    }
    r
}

/// The number that `v` spells in `base`, modulo 2^256.
fn parse_digits(v: &Vec<char>, base: u32) -> (r: Option<U256>)
    requires
        base == 10 || base == 16,
    ensures
        r is Some == number(v@, base as int) is Some,
        r matches Some(x) ==> x@ == wrap(number(v@, base as int)->0),
{
    let mut result: U256 = U256::ZERO();
    let b: U256 = U256::from_u128(base as u128);
    let mut i: usize = 0;
    assert(v@.take(0) =~= Seq::<char>::empty());
    while i < v.len()
        invariant
            i <= v.len(),
            b@ == base,
            base == 10 || base == 16,
            number(v@.take(i as int), base as int) is Some,
            result@ == wrap(number(v@.take(i as int), base as int)->0),
        decreases v.len() - i,
    {
        let ghost n = number(v@.take(i as int), base as int)->0;
        assert(v@.take(i + 1).drop_last() =~= v@.take(i as int));
        assert(v@.take(i + 1).last() == v[i as int]);
        match digit_of(v[i], base) {
            Some(d) => {
                result = result.wrapping_mul(b) + U256::from_u128(d as u128);
                proof {
                    wrap_mul(n, base as int);
                    wrap_add(n * base, d as int);
                }
            },
            None => {
                proof {
                    not_a_number(v@, i + 1, base as int);
                }
                return None;
            },
        }
        i = i + 1;
    }
    assert(v@.take(v@.len() as int) =~= v@);
    Some(result)
}

/// A text with a prefix that is no number is no number.
proof fn not_a_number(s: Seq<char>, i: int, base: int)
    requires
        0 <= i <= s.len(),
        number(s.take(i), base) is None,
    ensures
        number(s, base) is None,
    decreases s.len() - i,
{
    if i == s.len() {
        assert(s.take(i) =~= s);
    } else {
        assert(s.take(i + 1).drop_last() =~= s.take(i));
        not_a_number(s, i + 1, base);
    }
}

/// Appends `x` in decimal.
pub fn push_dec_u256(out: &mut String, x: U256)
    ensures
        final(out)@ == old(out)@ + dec(x@),
    decreases x@,
{
    let ghost start = out@;
    if x.hi == 0 && x.lo < 10_000_000_000_000_000_000u128 {
        push_dec(out, x.lo as u64);
    } else {
        let chunk: U256 = U256::from_u128(10_000_000_000_000_000_000u128);
        let q: U256 = x / chunk;
        proof {
            div_facts(x@, chunk@);
            assert(q@ * chunk@ <= x@);
        }
        let r: U256 = x - q.wrapping_mul(chunk);
        push_dec_u256(out, q);
        push_dec_padded(out, r.lo as u64, 19);
        proof {
            reveal_with_fuel(ten_pow, 20);
            dec_split(q@, r@, 19);
            assert(out@ =~= start + dec(x@));
        }
    }
}

/// Reading back the decimal text of a value gives the value.
pub proof fn dec_round_trip(x: U256)
    ensures
        number(trim(dec(x@)), 10) is Some,
        wrap(number(trim(dec(x@)), 10)->0) == x@,
{
    dec_reads_back(x@);
    trim_of_solid(dec(x@));
}

/// Bytes written and read back give the value.
pub proof fn bytes_round_trip(x: U256, y: U256, bytes: Seq<u8>)
    requires
        bytes_value(bytes, 32) == x@,
        y@ == bytes_value(bytes, 32),
    ensures
        y == x,
{
}

/// Division by `2^0` changes nothing.
pub proof fn unit_quotient(x: int)
    ensures
        x / two(0) == x,
        x * two(0) == x,
{
    two_values();
    let t = two(0);
    assert(x * t == x) by (nonlinear_arith)
        requires
            t == 1,
    ;
    div_unique(x, t, x, 0);
}

proof fn quotient_small(n: int, d: int)
    requires
        0 <= n < p256(),
        d > 0,
    ensures
        0 <= n / d <= n,
        wrap(n / d) == n / d,
{
    div_facts(n, d);
    assert(0 <= n / d <= n) by (nonlinear_arith)
        requires
            n == (n / d) * d + n % d,
            0 <= n % d < d,
            n >= 0,
            d >= 1,
    ;
}

/// A power of two is two to its number of trailing zeros.
proof fn power_of_two_exponent(x: int, t: int)
    requires
        exists|k: int| 0 <= k < 256 && x == #[trigger] two(k),
        0 <= t < 256,
        x % two(t) == 0,
        (x / two(t)) % 2 == 1,
    ensures
        x == two(t),
{
    let k = choose|k: int| 0 <= k < 256 && x == #[trigger] two(k);
    let d = two(t);
    two_pos(t);
    two_pos(k);
    div_facts(x, d);
    let q = x / d;
    if t < k {
        two_add(t, k - t);
        two_step(k - t - 1);
        let e = two(k - t - 1);
        assert(x == (2 * e) * d) by (nonlinear_arith)
            requires
                x == d * (2 * e),
        ;
        div_unique(x, d, 2 * e, 0);
    } else if k < t {
        two_mono(k + 1, t);
        two_step(k);
        assert(q == 0) by (nonlinear_arith)
            requires
                x == q * d,
                0 < x < d,
        ;
    }
}

impl AddSpecImpl for U256 {
    open spec fn obeys_add_spec() -> bool {
        true
    }

    open spec fn add_req(self, rhs: U256) -> bool {
        true
    }

    open spec fn add_spec(self, rhs: U256) -> U256 {
        u256(self@ + rhs@)
    }
}

impl Add for U256 {
    type Output = U256;

    fn add(self, rhs: U256) -> (r: U256)
        ensures
            r@ == wrap(self@ + rhs@),
    {
        let (r, _) = self.overflowing_add(rhs);
        proof {
            u256_of_view(r, self@ + rhs@);
        }
        r
    }
}

impl SubSpecImpl for U256 {
    open spec fn obeys_sub_spec() -> bool {
        true
    }

    open spec fn sub_req(self, rhs: U256) -> bool {
        true
    }

    open spec fn sub_spec(self, rhs: U256) -> U256 {
        u256(self@ - rhs@)
    }
}

impl Sub for U256 {
    type Output = U256;

    fn sub(self, rhs: U256) -> (r: U256)
        ensures
            r@ == wrap(self@ - rhs@),
    {
        let (r, _) = self.overflowing_sub(rhs);
        proof {
            u256_of_view(r, self@ - rhs@);
        }
        r
    }
}

impl MulSpecImpl for U256 {
    open spec fn obeys_mul_spec() -> bool {
        true
    }

    open spec fn mul_req(self, rhs: U256) -> bool {
        true
    }

    open spec fn mul_spec(self, rhs: U256) -> U256 {
        u256(self@ * rhs@)
    }
}

impl Mul for U256 {
    type Output = U256;

    fn mul(self, rhs: U256) -> (r: U256)
        ensures
            r@ == wrap(self@ * rhs@),
    {
        let r: U256 = self.wrapping_mul(rhs);
        proof {
            u256_of_view(r, self@ * rhs@);
        }
        r
    }
}

impl DivSpecImpl for U256 {
    open spec fn obeys_div_spec() -> bool {
        true
    }

    open spec fn div_req(self, rhs: U256) -> bool {
        rhs@ != 0
    }

    open spec fn div_spec(self, rhs: U256) -> U256 {
        u256(self@ / rhs@)
    }
}

impl Div for U256 {
    type Output = U256;

    fn div(self, rhs: U256) -> (r: U256)
        ensures
            r@ == self@ / rhs@,
    {
        proof {
            quotient_small(self@, rhs@);
        }
        let r: U256 = if self.hi == 0 && rhs.hi == 0 {
            U256::from_u128(self.lo / rhs.lo)
        } else if rhs.is_power_of_two() {
            let k: u32 = rhs.trailing_zeros();
            proof {
                power_of_two_exponent(rhs@, k as int);
            }
            self >> k
        } else {
            U256::div_256_by_256(self, rhs)
        };
        proof {
            u256_of_view(r, self@ / rhs@);
        }
        r
    }
}

impl RemSpecImpl for U256 {
    open spec fn obeys_rem_spec() -> bool {
        true
    }

    open spec fn rem_req(self, rhs: U256) -> bool {
        rhs@ != 0
    }

    open spec fn rem_spec(self, rhs: U256) -> U256 {
        u256(self@ % rhs@)
    }
}

impl Rem for U256 {
    type Output = U256;

    fn rem(self, rhs: U256) -> (r: U256)
        ensures
            r@ == self@ % rhs@,
    {
        let q: U256 = self / rhs;
        let r: U256 = self - q * rhs;
        proof {
            div_facts(self@, rhs@);
            assert(q@ * rhs@ <= self@);
            assert(q@ * rhs@ >= 0) by (nonlinear_arith)
                requires
                    q@ >= 0,
                    rhs@ >= 0,
            ;
            u256_of_view(r, self@ % rhs@);
        }
        r
    }
}

impl ShlSpecImpl<u32> for U256 {
    open spec fn obeys_shl_spec() -> bool {
        true
    }

    open spec fn shl_req(self, rhs: u32) -> bool {
        true
    }

    open spec fn shl_spec(self, rhs: u32) -> U256 {
        u256(self@ * two(rhs as int))
    }
}

impl Shl<u32> for U256 {
    type Output = U256;

    fn shl(self, rhs: u32) -> (r: U256)
        ensures
            r@ == wrap(self@ * two(rhs as int)),
    {
        let r: U256 = if rhs == 0 {
            self
        } else if rhs >= 256 {
            U256::ZERO()
        } else if rhs >= 128 {
            let k: u128 = (rhs - 128) as u128;
            U256 { lo: 0, hi: self.lo << k }
        } else {
            let k: u128 = rhs as u128;
            let moved: u128 = self.lo >> (128 - k);
            let kept: u128 = self.hi << k;
            proof {
                shl_fits(self.hi, self.lo, rhs as int);
            }
            U256 { lo: self.lo << k, hi: kept + moved }
        };
        proof {
            shl_value(self, rhs, r);
            u256_of_view(r, self@ * two(rhs as int));
        }
        r
    }
}

impl ShrSpecImpl<u32> for U256 {
    open spec fn obeys_shr_spec() -> bool {
        true
    }

    open spec fn shr_req(self, rhs: u32) -> bool {
        true
    }

    open spec fn shr_spec(self, rhs: u32) -> U256 {
        u256(self@ / two(rhs as int))
    }
}

impl Shr<u32> for U256 {
    type Output = U256;

    fn shr(self, rhs: u32) -> (r: U256)
        ensures
            r@ == self@ / two(rhs as int),
    {
        proof {
            two_pos(rhs as int);
            quotient_small(self@, two(rhs as int));
        }
        let r: U256 = if rhs == 0 {
            proof {
                unit_quotient(self@);
            }
            self
        } else if rhs >= 256 {
            proof {
                two_values();
                two_mono(256, rhs as int);
                div_unique(self@, two(rhs as int), 0, self@);
            }
            U256::ZERO()
        } else if rhs >= 128 {
            let k: u128 = (rhs - 128) as u128;
            proof {
                shr_high(self.hi as int, self.lo as int, k as int);
                vstd::bits::lemma_u128_shr_is_div(self.hi, k);
            }
            U256 { lo: self.hi >> k, hi: 0 }
        } else {
            let k: u128 = rhs as u128;
            let j: u128 = 128 - k;
            let moved: u128 = self.hi << j;
            let kept: u128 = self.lo >> k;
            proof {
                shr_parts(self.hi as int, self.lo as int, k as int);
                vstd::bits::lemma_u128_shr_is_div(self.hi, k);
                vstd::bits::lemma_u128_shr_is_div(self.lo, k);
                shl_128(self.hi, j);
                low_bits(self.hi as int, k as int);
                shr_fits(self.hi as int, self.lo as int, k as int);
            }
            U256 { lo: kept + moved, hi: self.hi >> k }
        };
        proof {
            u256_of_view(r, self@ / two(rhs as int));
        }
        r
    }
}

/// A right shift by 128 bits or more leaves the shifted upper half.
proof fn shr_high(hi: int, lo: int, k: int)
    requires
        0 <= k,
        0 <= lo < p128(),
        0 <= hi,
    ensures
        (lo + hi * p128()) / two(k + 128) == hi / two(k),
{
    two_add(k, 128);
    two_values();
    two_pos(k);
    let d = two(k);
    div_facts(hi, d);
    let x = lo + hi * p128();
    let r = (hi % d) * p128() + lo;
    assert(x == (hi / d) * (d * p128()) + r) by (nonlinear_arith)
        requires
            x == lo + hi * p128(),
            hi == (hi / d) * d + hi % d,
            r == (hi % d) * p128() + lo,
    ;
    assert(0 <= r < d * p128()) by (nonlinear_arith)
        requires
            r == (hi % d) * p128() + lo,
            0 <= lo < p128(),
            0 <= hi % d < d,
    ;
    div_unique(x, d * p128(), hi / d, r);
}

/// The two parts of a right-shifted lower half do not overlap.
proof fn shr_fits(hi: int, lo: int, s: int)
    requires
        0 < s < 128,
        0 <= lo < p128(),
        0 <= hi,
    ensures
        0 <= lo / two(s) + (hi % two(s)) * two(128 - s) < p128(),
{
    let d = two(s);
    let e = two(128 - s);
    two_pos(s);
    two_pos(128 - s);
    two_add(s, 128 - s);
    two_values();
    div_facts(lo, d);
    div_facts(hi, d);
    let q = lo / d;
    let m = hi % d;
    assert(0 <= q < e) by (nonlinear_arith)
        requires
            lo == q * d + lo % d,
            0 <= lo % d < d,
            0 <= lo < d * e,
            d >= 1,
    ;
    assert(0 <= q + m * e < d * e) by (nonlinear_arith)
        requires
            0 <= q < e,
            0 <= m < d,
    ;
}

/// The two parts of a left-shifted upper half do not overlap.
proof fn shl_fits(hi: u128, lo: u128, s: int)
    requires
        0 < s < 128,
    ensures
        (hi << (s as u128)) == (hi as int % two(128 - s)) * two(s),
        (lo >> ((128 - s) as u128)) == lo as int / two(128 - s),
        0 <= lo as int / two(128 - s) < two(s),
        (hi as int % two(128 - s)) * two(s) + lo as int / two(128 - s) < p128(),
{
    let k = s as u128;
    shl_128(hi, k);
    low_bits(hi as int, 128 - s);
    vstd::bits::lemma_u128_shr_is_div(lo, (128 - s) as u128);
    shr_fits(hi as int, lo as int, 128 - s);
    let d = two(128 - s);
    let e = two(s);
    two_pos(128 - s);
    two_pos(s);
    two_add(s, 128 - s);
    two_values();
    div_facts(lo as int, d);
    let q = lo as int / d;
    assert(0 <= q < e) by (nonlinear_arith)
        requires
            lo == q * d + lo as int % d,
            0 <= lo as int % d < d,
            0 <= lo < d * e,
            p128() == e * d,
            d >= 1,
    ;
}

/// What a left shift computes is the product with the power of two, wrapped.
proof fn shl_value(x: U256, s: u32, r: U256)
    requires
        s == 0 ==> r == x,
        s >= 256 ==> r@ == 0,
        128 <= s < 256 ==> r == (U256 { lo: 0, hi: x.lo << ((s - 128) as u128) }),
        0 < s < 128 ==> r@ == (x.lo << (s as u128)) + ((x.hi as int % two(128 - s)) * two(s as int)
            + x.lo as int / two(128 - s)) * p128(),
    ensures
        r@ == wrap(x@ * two(s as int)),
{
    two_values();
    let t = two(s as int);
    let hi = x.hi as int;
    let lo = x.lo as int;
    if s == 0 {
        assert(x@ * 1 == x@);
    } else if s >= 256 {
        two_add(256, s - 256);
        let e = two(s - 256);
        assert(x@ * t == (x@ * e) * p256()) by (nonlinear_arith)
            requires
                t == p256() * e,
        ;
        div_unique(x@ * t, p256(), x@ * e, 0);
    } else if s >= 128 {
        let k = (s - 128) as u128;
        shl_128(x.lo, k);
        two_add(128, k as int);
        let e = two(k as int);
        let y = lo * e;
        div_facts(y, p128());
        assert(x@ * t == (y / p128() + hi * e) * p256() + (y % p128()) * p128())
            by (nonlinear_arith)
            requires
                x@ == lo + hi * p128(),
                t == p128() * e,
                y == lo * e,
                y == (y / p128()) * p128() + y % p128(),
        ;
        div_unique(x@ * t, p256(), y / p128() + hi * e, (y % p128()) * p128());
    } else {
        shl_128(x.lo, s as u128);
        let d = two(128 - s);
        two_pos(128 - s);
        two_add(s as int, 128 - s);
        low_bits(lo, 128 - s);
        div_facts(lo, d);
        div_facts(hi, d);
        let low = (lo % d) * t;
        let mid = (hi % d) * t + lo / d;
        assert(x@ * t == (hi / d) * p256() + (low + mid * p128())) by (nonlinear_arith)
            requires
                x@ == lo + hi * p128(),
                p128() == t * d,
                lo == (lo / d) * d + lo % d,
                hi == (hi / d) * d + hi % d,
                low == (lo % d) * t,
                mid == (hi % d) * t + lo / d,
        ;
        div_unique(x@ * t, p256(), hi / d, low + mid * p128());
    }
}

impl BitAndSpecImpl for U256 {
    open spec fn obeys_bitand_spec() -> bool {
        true
    }

    open spec fn bitand_req(self, rhs: U256) -> bool {
        true
    }

    open spec fn bitand_spec(self, rhs: U256) -> U256 {
        U256 { hi: self.hi & rhs.hi, lo: self.lo & rhs.lo }
    }
}

impl BitAnd for U256 {
    type Output = U256;

    fn bitand(self, rhs: U256) -> (r: U256)
        ensures
            r == (U256 { hi: self.hi & rhs.hi, lo: self.lo & rhs.lo }),
    {
        U256 { hi: self.hi & rhs.hi, lo: self.lo & rhs.lo }
    }
}

impl BitOrSpecImpl for U256 {
    open spec fn obeys_bitor_spec() -> bool {
        true
    }

    open spec fn bitor_req(self, rhs: U256) -> bool {
        true
    }

    open spec fn bitor_spec(self, rhs: U256) -> U256 {
        U256 { hi: self.hi | rhs.hi, lo: self.lo | rhs.lo }
    }
}

impl BitOr for U256 {
    type Output = U256;

    fn bitor(self, rhs: U256) -> (r: U256)
        ensures
            r == (U256 { hi: self.hi | rhs.hi, lo: self.lo | rhs.lo }),
    {
        U256 { hi: self.hi | rhs.hi, lo: self.lo | rhs.lo }
    }
}

impl NotSpecImpl for U256 {
    open spec fn obeys_not_spec() -> bool {
        true
    }

    open spec fn not_req(self) -> bool {
        true
    }

    open spec fn not_spec(self) -> U256 {
        u256(p256() - 1 - self@)
    }
}

impl Not for U256 {
    type Output = U256;

    fn not(self) -> (r: U256)
        ensures
            r@ == p256() - 1 - self@,
    {
        let r: U256 = U256 { hi: u128::MAX - self.hi, lo: u128::MAX - self.lo };
        proof {
            u256_of_view(r, p256() - 1 - self@);
        }
        r
    }
}

impl vstd::std_specs::cmp::PartialOrdSpecImpl for U256 {
    open spec fn obeys_partial_cmp_spec() -> bool {
        true
    }

    open spec fn partial_cmp_spec(&self, other: &U256) -> Option<Ordering> {
        if self@ < other@ {
            Some(Ordering::Less)
        } else if self@ > other@ {
            Some(Ordering::Greater)
        } else {
            Some(Ordering::Equal)
        }
    }
}

impl PartialOrd for U256 {
    fn partial_cmp(&self, other: &U256) -> (r: Option<Ordering>) {
        if self.hi < other.hi || (self.hi == other.hi && self.lo < other.lo) {
            Some(Ordering::Less)
        } else if self.hi == other.hi && self.lo == other.lo {
            Some(Ordering::Equal)
        } else {
            Some(Ordering::Greater)
        }
    }
}

impl Default for U256 {
    fn default() -> (r: U256)
        ensures
            r@ == 0,
    {
        U256 { hi: 0, lo: 0 }
    }
}

/// The smaller of two values.
pub fn min_u256(a: U256, b: U256) -> (r: U256)
    ensures
        r@ == (if a@ <= b@ { a@ } else { b@ }),
{
    if a <= b {
        a
    } else {
        b
    }
}

/// The larger of two values.
pub fn max_u256(a: U256, b: U256) -> (r: U256)
    ensures
        r@ == (if a@ >= b@ { a@ } else { b@ }),
{
    if a >= b {
        a
    } else {
        b
    }
}

impl FromSpecImpl<u128> for U256 {
    open spec fn obeys_from_spec() -> bool {
        true
    }

    open spec fn from_spec(v: u128) -> U256 {
        U256 { hi: 0, lo: v }
    }
}

impl From<u128> for U256 {
    fn from(v: u128) -> (r: U256)
        ensures
            r@ == v,
    {
        U256 { hi: 0, lo: v }
    }
}

impl FromSpecImpl<u64> for U256 {
    open spec fn obeys_from_spec() -> bool {
        true
    }

    open spec fn from_spec(v: u64) -> U256 {
        U256 { hi: 0, lo: v as u128 }
    }
}

impl From<u64> for U256 {
    fn from(v: u64) -> (r: U256)
        ensures
            r@ == v,
    {
        U256 { hi: 0, lo: v as u128 }
    }
}

impl FromSpecImpl<u32> for U256 {
    open spec fn obeys_from_spec() -> bool {
        true
    }

    open spec fn from_spec(v: u32) -> U256 {
        U256 { hi: 0, lo: v as u128 }
    }
}

impl From<u32> for U256 {
    fn from(v: u32) -> (r: U256)
        ensures
            r@ == v,
    {
        U256 { hi: 0, lo: v as u128 }
    }
}

/// `v` sign-extended to 128 bits, read as unsigned.
pub open spec fn extend_128(v: int) -> int {
    if v >= 0 {
        v
    } else {
        p128() + v
    }
}

fn extend(v: i128) -> (r: u128)
    ensures
        r == extend_128(v as int),
{
    if v >= 0 {
        v as u128
    } else {
        u128::MAX - ((-(v + 1)) as u128)
    }
}

impl FromSpecImpl<i32> for U256 {
    open spec fn obeys_from_spec() -> bool {
        true
    }

    open spec fn from_spec(v: i32) -> U256 {
        U256 { hi: 0, lo: extend_128(v as int) as u128 }
    }
}

impl From<i32> for U256 {
    fn from(v: i32) -> (r: U256)
        ensures
            r@ == extend_128(v as int),
    {
        U256 { hi: 0, lo: extend(v as i128) }
    }
}

/// A signed 256-bit integer: the two's complement reading of a `U256`.
#[derive(Copy, Clone, Debug, PartialEq, Eq, Structural, Hash)]
pub struct I256(pub U256);

impl View for I256 {
    type V = int;

    open spec fn view(&self) -> int {
        wrap_signed(self.0@)
    }
}

/// The signed 256-bit integer that `n` wraps to.
pub open spec fn i256(n: int) -> I256 {
    I256(u256(n))
}

/// A signed integer is the only one with its view, and its bits are its view
/// modulo 2^256.
pub proof fn i256_of_view(x: I256, n: int)
    requires
        x@ == wrap_signed(n),
    ensures
        x == i256(n),
        x.0@ == wrap(x@),
        -p255() <= x@ < p255(),
{
    wrap_signed_facts(n);
    wrap_signed_facts(x.0@);
    u256_of_view(x.0, n);
}

/// The bits of a signed integer are its view modulo 2^256.
pub proof fn i256_bits(x: I256)
    ensures
        x.0@ == wrap(x@),
        -p255() <= x@ < p255(),
        x@ >= 0 ==> x.0@ == x@,
        x@ < 0 ==> x.0@ == x@ + p256(),
{
    wrap_signed_facts(x.0@);
}

/// Division that rounds toward zero.
pub open spec fn trunc_div(a: int, b: int) -> int {
    let q = abs(a) / abs(b);
    if (a < 0) != (b < 0) {
        -q
    } else {
        q
    }
}

/// The absolute value.
pub open spec fn abs(a: int) -> int {
    if a < 0 {
        -a
    } else {
        a
    }
}

impl I256 {
    /// Zero.
    #[allow(non_snake_case)]
    pub fn ZERO() -> (r: I256)
        ensures
            r@ == 0,
            r.0@ == 0,
    {
        I256(U256::ZERO())
    }

    /// One.
    #[allow(non_snake_case)]
    pub fn ONE() -> (r: I256)
        ensures
            r@ == 1,
    {
        I256(U256::ONE())
    }

    /// Minus one.
    #[allow(non_snake_case)]
    pub fn NEGATIVE_ONE() -> (r: I256)
        ensures
            r@ == -1,
    {
        I256(U256::MAX())
    }

    pub fn is_negative(&self) -> (r: bool)
        ensures
            r == (self@ < 0),
    {
        self.0.hi >= 0x8000_0000_0000_0000_0000_0000_0000_0000u128
    }

    pub fn is_zero(&self) -> (r: bool)
        ensures
            r == (self@ == 0),
    {
        self.0.is_zero()
    }

    pub fn is_positive(&self) -> (r: bool)
        ensures
            r == (self@ > 0),
    {
        !self.is_negative() && !self.is_zero()
    }

    /// The negated value, wrapped.
    pub fn negate(self) -> (r: I256)
        ensures
            r@ == wrap_signed(-self@),
            r.0@ == wrap(-self@),
    {
        if self.is_zero() {
            return self;
        }
        I256(self.0.not() + U256::ONE())
    }

    /// The absolute value.
    pub fn abs(self) -> (r: U256)
        ensures
            r@ == abs(self@),
    {
        if self.is_negative() {
            self.negate().0
        } else {
            self.0
        }
    }

    /// `v`, sign-extended.
    pub fn from_i64(v: i64) -> (r: Self)
        ensures
            r@ == v,
    {
        if v >= 0 {
            I256(U256::from_u128(v as u128))
        } else {
            I256(U256::new(extend(v as i128), u128::MAX))
        }
    }

    /// The bits of `v` as the low word of a number whose high word is zero: `v` itself
    /// where it is not negative, else 2^128 more.
    pub fn from_i128(v: i128) -> (r: Self)
        ensures
            r@ == extend_128(v as int),
    {
        I256(U256::from_u128(extend(v)))
    }

    /// The same bits read as unsigned.
    pub fn as_u256(self) -> (r: U256)
        ensures
            r == self.0,
            r@ == wrap(self@),
    {
        proof {
            i256_bits(self);
        }
        self.0
    }

    /// `v`, sign-extended.
    pub fn from_i32(v: i32) -> (r: Self)
        ensures
            r@ == v,
    {
        if v >= 0 {
            I256(U256::from_u128(v as u128))
        } else {
            I256(U256::new(extend(v as i128), u128::MAX))
        }
    }

    /// The low 32 bits read as signed.
    pub fn as_i32(&self) -> (r: i32)
        ensures
            r == (if self@ % 0x1_0000_0000 < 0x8000_0000 {
                self@ % 0x1_0000_0000
            } else {
                self@ % 0x1_0000_0000 - 0x1_0000_0000
            }),
    {
        let w: i64 = (self.0.lo % 0x1_0000_0000u128) as i64;
        proof {
            low_part(*self, 0x1_0000_0000, 0x1_0000_0000_0000_0000_0000_0000int);
        }
        if w < 0x8000_0000 {
            w as i32
        } else {
            (w - 0x1_0000_0000) as i32
        }
    }

    /// The low 128 bits read as signed.
    pub fn to_i128(&self) -> (r: i128)
        ensures
            r == (if self@ % p128() < p128() / 2 {
                self@ % p128()
            } else {
                self@ % p128() - p128()
            }),
    {
        let w: u128 = self.0.lo;
        proof {
            low_part(*self, p128(), 1);
        }
        if w < 0x8000_0000_0000_0000_0000_0000_0000_0000u128 {
            w as i128
        } else {
            -((u128::MAX - w) as i128) - 1
        }
    }

    /// The product, wrapped.
    pub fn wrapping_mul(self, rhs: I256) -> (r: I256)
        ensures
            r@ == wrap_signed(self@ * rhs@),
    {
        proof {
            signed_product(self, rhs);
        }
        I256(self.0.wrapping_mul(rhs.0))
    }

    /// The value in decimal with its sign.
    pub fn to_dec_string(&self) -> (r: String)
        ensures
            r@ == dec_signed(self@),
    {
        let mut out: String = String::new();
        if self.is_negative() {
            proof {
                reveal_strlit("-");
                assert("-"@ =~= seq!['-']);
            }
            out.append("-");
        }
        push_dec_u256(&mut out, self.abs());
        assert(out@ =~= dec_signed(self@));
        out
    }

    /// The 32 bytes of the bits, least significant first.
    pub fn to_le_bytes(&self) -> (r: [u8; 32])
        ensures
            bytes_value(r@, 32) == wrap(self@),
    {
        proof {
            i256_bits(*self);
        }
        self.0.to_le_bytes()
    }

    /// The value whose bits the first 32 bytes hold, least significant first.
    pub fn from_le_bytes(bytes: &[u8]) -> (r: Self)
        requires
            bytes@.len() >= 32,
        ensures
            r@ == wrap_signed(bytes_value(bytes@, 32)),
    {
        I256(U256::from_le_bytes(bytes))
    }
}

/// The low bits of a signed integer are the low bits of its lower half.
proof fn low_part(x: I256, m: int, k: int)
    requires
        0 < m,
        m * k == p128(),
    ensures
        x@ % m == x.0.lo as int % m,
{
    i256_bits(x);
    let lo = x.0.lo as int;
    let h = if x@ < 0 {
        x.0.hi - p128()
    } else {
        x.0.hi as int
    };
    div_facts(lo, m);
    assert(x@ == lo + h * p128());
    assert(x@ == (lo / m + h * k) * m + lo % m) by (nonlinear_arith)
        requires
            x@ == lo + h * p128(),
            m * k == p128(),
            lo == (lo / m) * m + lo % m,
    ;
    div_unique(x@, m, lo / m + h * k, lo % m);
}

/// Products of signed integers and of their bits agree modulo 2^256.
proof fn signed_product(a: I256, b: I256)
    ensures
        wrap(a.0@ * b.0@) == wrap(a@ * b@),
        wrap_signed(wrap(a@ * b@)) == wrap_signed(a@ * b@),
{
    i256_bits(a);
    i256_bits(b);
    wrap_mul(a@, b@);
    wrap_mul(a@, wrap(b@));
    wrap_signed_facts(a@ * b@);
}

/// What was widened from a 128-bit signed integer narrows back to it.
pub proof fn i128_round_trip(v: i128, x: I256, r: i128)
    requires
        x@ == extend_128(v as int),
        r == (if x@ % p128() < p128() / 2 {
            x@ % p128()
        } else {
            x@ % p128() - p128()
        }),
    ensures
        r == v,
{
}

/// Negating twice gives the value back.
pub proof fn negate_twice(x: I256)
    ensures
        wrap_signed(-wrap_signed(-x@)) == x@,
{
    i256_bits(x);
}

impl AddSpecImpl for I256 {
    open spec fn obeys_add_spec() -> bool {
        true
    }

    open spec fn add_req(self, rhs: I256) -> bool {
        true
    }

    open spec fn add_spec(self, rhs: I256) -> I256 {
        i256(self@ + rhs@)
    }
}

impl Add for I256 {
    type Output = I256;

    fn add(self, rhs: I256) -> (r: I256)
        ensures
            r@ == wrap_signed(self@ + rhs@),
    {
        let r: I256 = I256(self.0 + rhs.0);
        proof {
            i256_bits(self);
            i256_bits(rhs);
            i256_of_view(r, self@ + rhs@);
        }
        r
    }
}

impl SubSpecImpl for I256 {
    open spec fn obeys_sub_spec() -> bool {
        true
    }

    open spec fn sub_req(self, rhs: I256) -> bool {
        true
    }

    open spec fn sub_spec(self, rhs: I256) -> I256 {
        i256(self@ - rhs@)
    }
}

impl Sub for I256 {
    type Output = I256;

    fn sub(self, rhs: I256) -> (r: I256)
        ensures
            r@ == wrap_signed(self@ - rhs@),
    {
        let r: I256 = I256(self.0 - rhs.0);
        proof {
            i256_bits(self);
            i256_bits(rhs);
            i256_of_view(r, self@ - rhs@);
        }
        r
    }
}

impl MulSpecImpl for I256 {
    open spec fn obeys_mul_spec() -> bool {
        true
    }

    open spec fn mul_req(self, rhs: I256) -> bool {
        true
    }

    open spec fn mul_spec(self, rhs: I256) -> I256 {
        i256(self@ * rhs@)
    }
}

impl Mul for I256 {
    type Output = I256;

    fn mul(self, rhs: I256) -> (r: I256)
        ensures
            r@ == wrap_signed(self@ * rhs@),
    {
        let r: I256 = self.wrapping_mul(rhs);
        proof {
            i256_of_view(r, self@ * rhs@);
        }
        r
    }
}

impl DivSpecImpl for I256 {
    open spec fn obeys_div_spec() -> bool {
        true
    }

    open spec fn div_req(self, rhs: I256) -> bool {
        self@ == 0 || rhs@ != 0
    }

    open spec fn div_spec(self, rhs: I256) -> I256 {
        if self@ == 0 { i256(0) } else { i256(trunc_div(self@, rhs@)) }
    }
}

impl Div for I256 {
    type Output = I256;

    fn div(self, rhs: I256) -> (r: I256)
        ensures
            r@ == (if self@ == 0 { 0 } else { wrap_signed(trunc_div(self@, rhs@)) }),
    {
        if self.is_zero() {
            return I256::ZERO();
        }
        let q: U256 = self.abs() / rhs.abs();
        let r: I256 = if self.is_negative() != rhs.is_negative() {
            proof {
                wrap_signed_facts(-q@);
                wrap_signed_facts(q@);
            }
            I256(q).negate()
        } else {
            I256(q)
        };
        proof {
            i256_bits(self);
            quotient_small(abs(self@), abs(rhs@));
            i256_of_view(r, trunc_div(self@, rhs@));
        }
        r
    }
}

impl NegSpecImpl for I256 {
    open spec fn obeys_neg_spec() -> bool {
        true
    }

    open spec fn neg_req(self) -> bool {
        true
    }

    open spec fn neg_spec(self) -> I256 {
        i256(-self@)
    }
}

impl Neg for I256 {
    type Output = I256;

    fn neg(self) -> (r: I256)
        ensures
            r@ == wrap_signed(-self@),
    {
        let r: I256 = self.negate();
        proof {
            i256_of_view(r, -self@);
        }
        r
    }
}

impl vstd::std_specs::cmp::PartialOrdSpecImpl for I256 {
    open spec fn obeys_partial_cmp_spec() -> bool {
        true
    }

    open spec fn partial_cmp_spec(&self, other: &I256) -> Option<Ordering> {
        if self@ < other@ {
            Some(Ordering::Less)
        } else if self@ > other@ {
            Some(Ordering::Greater)
        } else {
            Some(Ordering::Equal)
        }
    }
}

impl PartialOrd for I256 {
    fn partial_cmp(&self, other: &I256) -> (r: Option<Ordering>) {
        if self.is_negative() && !other.is_negative() {
            Some(Ordering::Less)
        } else if !self.is_negative() && other.is_negative() {
            Some(Ordering::Greater)
        } else {
            self.0.partial_cmp(&other.0)
        }
    }
}

impl Default for I256 {
    fn default() -> (r: I256)
        ensures
            r@ == 0,
    {
        I256::ZERO()
    }
}

impl FromSpecImpl<i32> for I256 {
    open spec fn obeys_from_spec() -> bool {
        true
    }

    open spec fn from_spec(v: i32) -> I256 {
        i256(v as int)
    }
}

impl From<i32> for I256 {
    fn from(v: i32) -> (r: I256)
        ensures
            r@ == v,
    {
        let r: I256 = I256::from_i32(v);
        proof {
            i256_of_view(r, v as int);
        }
        r
    }
}

impl FromSpecImpl<U256> for I256 {
    open spec fn obeys_from_spec() -> bool {
        true
    }

    open spec fn from_spec(v: U256) -> I256 {
        I256(v)
    }
}

impl From<U256> for I256 {
    fn from(v: U256) -> (r: I256)
        ensures
            r@ == wrap_signed(v@),
    {
        I256(v)
    }
}

/// Zero.
#[allow(non_snake_case)]
pub fn ZERO() -> (r: U256)
    ensures
        r@ == 0,
{
    U256 { hi: 0, lo: 0 }
}

/// One.
#[allow(non_snake_case)]
pub fn ONE() -> (r: U256)
    ensures
        r@ == 1,
{
    U256 { hi: 0, lo: 1 }
}

/// Two.
#[allow(non_snake_case)]
pub fn TWO() -> (r: U256)
    ensures
        r@ == 2,
{
    U256 { hi: 0, lo: 2 }
}

/// `2^128 - 1`.
#[allow(non_snake_case)]
pub fn MAX_UINT128() -> (r: U256)
    ensures
        r@ == p128() - 1,
{
    U256 { hi: 0, lo: u128::MAX }
}

/// `2^160 - 1`.
#[allow(non_snake_case)]
pub fn MAX_UINT160() -> (r: U256)
    ensures
        r@ == 0x1_0000_0000 * p128() - 1,
{
    U256 { hi: 0xFFFF_FFFF, lo: u128::MAX }
}

/// `2^256 - 1`.
#[allow(non_snake_case)]
pub fn MAX_UINT256() -> (r: U256)
    ensures
        r@ == p256() - 1,
{
    U256 { hi: u128::MAX, lo: u128::MAX }
}

/// `2^32`.
#[allow(non_snake_case)]
pub fn Q32() -> (r: U256)
    ensures
        r@ == 0x1_0000_0000,
{
    U256 { hi: 0, lo: 0x1_0000_0000 }
}

/// `2^96`, the scale of a square root price.
#[allow(non_snake_case)]
pub fn Q96() -> (r: U256)
    ensures
        r@ == p96(),
{
    U256 { hi: 0, lo: 0x1_0000_0000_0000_0000_0000_0000 }
}

/// `2^128`, the scale of fee growth.
#[allow(non_snake_case)]
pub fn Q128() -> (r: U256)
    ensures
        r@ == p128(),
{
    U256 { hi: 1, lo: 0 }
}

/// `2^192`, the scale of a price.
#[allow(non_snake_case)]
pub fn Q192() -> (r: U256)
    ensures
        r@ == p192(),
{
    U256 { hi: 0x1_0000_0000_0000_0000, lo: 0 }
}

/// The fee denominator, one million.
#[allow(non_snake_case)]
pub fn MAX_FEE() -> (r: U256)
    ensures
        r@ == 1_000_000,
{
    U256 { hi: 0, lo: 1_000_000 }
}

/// The lowest tick.
pub const MIN_TICK: i32 = -887272;

/// The highest tick.
pub const MAX_TICK: i32 = 887272;

/// The square root price at the lowest tick.
#[verifier::inline]
pub open spec fn min_ratio() -> int {
    4295128739
}

/// The square root price at the highest tick.
#[verifier::inline]
pub open spec fn max_ratio() -> int {
    1461446703485210103287273052203988822378723970342int
}

/// The square root price at the lowest tick.
#[allow(non_snake_case)]
pub fn MIN_SQRT_RATIO() -> (r: U256)
    ensures
        r@ == min_ratio(),
{
    U256 { hi: 0, lo: 4295128739 }
}

/// The square root price at the highest tick.
#[allow(non_snake_case)]
pub fn MAX_SQRT_RATIO() -> (r: U256)
    ensures
        r@ == max_ratio(),
{
    U256 { hi: 0xFFFD8963, lo: 0xEFD1FC6A506488495D951D5263988D26 }
}

/// The fee tiers of a pool.
#[derive(Debug, Clone, Copy, PartialEq, Eq, Structural)]
pub enum FeeAmount {
    ExtraLow,
    Low,
    Medium,
    High,
}

impl FeeAmount {
    /// The fee in millionths.
    pub open spec fn millionths(self) -> int {
        match self {
            FeeAmount::ExtraLow => 100,
            FeeAmount::Low => 500,
            FeeAmount::Medium => 3000,
            FeeAmount::High => 10000,
        }
    }

    /// The tick spacing that goes with the tier.
    pub open spec fn spacing(self) -> int {
        match self {
            FeeAmount::ExtraLow => 1,
            FeeAmount::Low => 10,
            FeeAmount::Medium => 60,
            FeeAmount::High => 200,
        }
    }

    pub fn tick_spacing(&self) -> (r: i32)
        ensures
            r == self.spacing(),
    {
        match self {
            FeeAmount::ExtraLow => 1,
            FeeAmount::Low => 10,
            FeeAmount::Medium => 60,
            FeeAmount::High => 200,
        }
    }

    /// The tier with the fee `v`; `None` where there is none.
    pub fn try_from_u32(v: u32) -> (r: Option<Self>)
        ensures
            r matches Some(f) ==> f.millionths() == v,
            r is None ==> forall|f: FeeAmount| #[trigger] f.millionths() != v,
    {
        match v {
            100 => Some(FeeAmount::ExtraLow),
            500 => Some(FeeAmount::Low),
            3000 => Some(FeeAmount::Medium),
            10000 => Some(FeeAmount::High),
            _ => None,
        }
    }

    /// The tier with the fee `v`.
    pub fn from_u32(v: u32) -> (r: Self)
        requires
            v == 100 || v == 500 || v == 3000 || v == 10000,
        ensures
            r.millionths() == v,
    {
        match v {
            100 => FeeAmount::ExtraLow,
            500 => FeeAmount::Low,
            3000 => FeeAmount::Medium,
            _ => FeeAmount::High,
        }
    }

    /// The fee in millionths.
    pub fn as_u256(&self) -> (r: U256)
        ensures
            r@ == self.millionths(),
    {
        match self {
            FeeAmount::ExtraLow => U256::from_u128(100),
            FeeAmount::Low => U256::from_u128(500),
            FeeAmount::Medium => U256::from_u128(3000),
            FeeAmount::High => U256::from_u128(10000),
        }
    }
}

/// The square root price at the highest tick.
pub fn max_sqrt_ratio() -> (r: U256)
    ensures
        r@ == max_ratio(),
{
    MAX_SQRT_RATIO()
}

/// The square root price at the lowest tick.
pub fn min_sqrt_ratio() -> (r: U256)
    ensures
        r@ == min_ratio(),
{
    MIN_SQRT_RATIO()
}

} // verus!
