//! Products and quotients with a 512-bit intermediate, and the integer square root.
use crate::arith::{
    div_facts, p128, p256, two, two_add, two_mono, two_pos, two_step, two_values, wrap,
};
use crate::types::{MAX_UINT256, U256};
use vstd::prelude::*;

verus! {

/// `a * b / d` rounded down, modulo 2^256.
pub open spec fn floor_mul_div(a: int, b: int, d: int) -> int {
    wrap(a * b / d)
}

/// `a * b / d` rounded down, modulo 2^256; `None` for a zero `d`.
pub open spec fn checked_mul_div(a: int, b: int, d: int) -> Option<int> {
    if d == 0 {
        None
    } else {
        Some(floor_mul_div(a, b, d))
    }
}

/// `a * b / d` rounded up. An exact quotient that fits is returned as it is;
/// any other is cut to 256 bits and incremented, which fails where the cut
/// quotient is already the largest value. A zero `d` fails.
pub open spec fn ceil_mul_div(a: int, b: int, d: int) -> Option<int> {
    if d == 0 {
        None
    } else if (a * b) % d == 0 && a * b / d < p256() {
        Some(a * b / d)
    } else if wrap(a * b / d) == p256() - 1 {
        None
    } else {
        Some(wrap(a * b / d) + 1)
    }
}

/// `a * b / d` rounded down; only the low 256 bits are kept.
pub fn mul_div(a: U256, b: U256, denominator: U256) -> (r: U256)
    requires
        denominator@ != 0,
    ensures
        r@ == floor_mul_div(a@, b@, denominator@),
{
    let (lo, hi) = a.full_mul(b);
    if hi.is_zero() {
        proof {
            assert(lo@ + 0 * p256() == a@ * b@);
            quotient_fits(a@ * b@, denominator@);
        }
        return lo / denominator;
    }
    U256::div_512(lo, hi, denominator)
}

/// As `mul_div`; `None` for a zero denominator.
pub fn try_mul_div(a: U256, b: U256, denominator: U256) -> (r: Option<U256>)
    ensures
        r matches Some(x) ==> checked_mul_div(a@, b@, denominator@) == Some(x@),
        r is None ==> checked_mul_div(a@, b@, denominator@) is None,
{
    if denominator.is_zero() {
        None
    } else {
        Some(mul_div(a, b, denominator))
    }
}

proof fn quotient_fits(n: int, d: int)
    requires
        0 <= n < p256(),
        d > 0,
    ensures
        0 <= n / d <= n,
        wrap(n / d) == n / d,
{
    div_facts(n, d);
    assert(0 <= n / d <= n) by (nonlinear_arith)
        requires
            n == (n / d) * d + n % d,
            0 <= n % d < d,
            n >= 0,
            d >= 1,
    ;
}

/// Whether cutting the quotient or the division itself lost something.
proof fn rounding_test(n: int, d: int)
    requires
        n >= 0,
        0 < d,
    ensures
        n / d >= 0,
        n > wrap(n / d) * d <==> !(n % d == 0 && n / d < p256()),
{
    div_facts(n, d);
    let q = n / d;
    assert(q >= 0) by (nonlinear_arith)
        requires
            n == q * d + n % d,
            0 <= n % d < d,
            n >= 0,
    ;
    if q < p256() {
        assert(wrap(q) == q);
    } else {
        assert(wrap(q) < q);
        assert(wrap(q) * d < q * d) by (nonlinear_arith)
            requires
                wrap(q) < q,
                d > 0,
        ;
    }
}

/// `a * b / d` rounded up; `None` for a zero denominator and where rounding up
/// leaves 256 bits.
pub fn try_mul_div_rounding_up(a: U256, b: U256, denominator: U256) -> (r: Option<U256>)
    ensures
        r matches Some(x) ==> ceil_mul_div(a@, b@, denominator@) == Some(x@),
        r is None ==> ceil_mul_div(a@, b@, denominator@) is None,
{
    if denominator.is_zero() {
        return None;
    }
    let (lo, hi) = a.full_mul(b);
    let result: U256 = if hi.is_zero() {
        proof {
            assert(lo@ + 0 * p256() == a@ * b@);
            quotient_fits(a@ * b@, denominator@);
        }
        lo / denominator
    } else {
        U256::div_512(lo, hi, denominator)
    };
    let (check_lo, check_hi) = result.full_mul(denominator);
    proof {
        assert(a@ * b@ >= 0) by (nonlinear_arith)
            requires
                a@ >= 0,
                b@ >= 0,
        ;
        rounding_test(a@ * b@, denominator@);
    }
    if hi > check_hi || (hi == check_hi && lo > check_lo) {
        if result == MAX_UINT256() {
            None
        } else {
            Some(result + U256::ONE())
        }
    } else {
        Some(result)
    }
}

/// `a * b / d` rounded up.
pub fn mul_div_rounding_up(a: U256, b: U256, denominator: U256) -> (r: U256)
    requires
        ceil_mul_div(a@, b@, denominator@) is Some,
    ensures
        ceil_mul_div(a@, b@, denominator@) == Some(r@),
{
    match try_mul_div_rounding_up(a, b, denominator) {
        Some(r) => r,
        None => U256::ZERO(),
    }
}

/// Where the rounded-up quotient fits in 256 bits it is what `ceil_mul_div` gives:
/// the least `q` with `q * d >= a * b`.
pub proof fn ceil_mul_div_is_ceiling(a: int, b: int, d: int, q: int)
    requires
        0 <= a,
        0 <= b,
        0 < d,
        0 <= q < p256(),
        q * d >= a * b,
        (q - 1) * d < a * b,
    ensures
        ceil_mul_div(a, b, d) == Some(q),
{
    let n = a * b;
    assert(n >= 0) by (nonlinear_arith)
        requires
            a >= 0,
            b >= 0,
            n == a * b,
    ;
    div_facts(n, d);
    let f = n / d;
    assert(f >= 0 && q - 1 <= f <= q) by (nonlinear_arith)
        requires
            n == f * d + n % d,
            0 <= n % d < d,
            n >= 0,
            q * d >= n,
            (q - 1) * d < n,
    ;
    if f == q {
        assert(n % d == 0);
    } else if n % d == 0 {
        assert(false);
    }
}

/// The rounded-up quotient brackets the exact one whenever it exists and the
/// quotient is below 2^256.
pub proof fn ceil_mul_div_bracket(a: int, b: int, d: int)
    requires
        0 <= a,
        0 <= b,
        0 < d,
        a * b / d < p256() - 1,
    ensures
        ceil_mul_div(a, b, d) is Some,
        ceil_mul_div(a, b, d)->0 * d >= a * b,
        (ceil_mul_div(a, b, d)->0 - 1) * d < a * b,
        ceil_mul_div(a, b, d)->0 >= 0,
        ceil_mul_div(a, b, d)->0 <= a * b / d + 1,
{
    let n = a * b;
    assert(n >= 0) by (nonlinear_arith)
        requires
            a >= 0,
            b >= 0,
            n == a * b,
    ;
    div_facts(n, d);
    let f = n / d;
    assert(f >= 0) by (nonlinear_arith)
        requires
            n == f * d + n % d,
            0 <= n % d < d,
            n >= 0,
    ;
    assert((f + 1) * d == f * d + d) by (nonlinear_arith);
    assert((f - 1) * d == f * d - d) by (nonlinear_arith);
}

/// `a - b` modulo 2^256.
pub fn mod256_sub(a: U256, b: U256) -> (r: U256)
    ensures
        r@ == wrap(a@ - b@),
{
    let (result, _) = a.overflowing_sub(b);
    result
}

/// One Newton step from any positive start does not fall below the root.
proof fn newton_step(v: int, x: int, y: int)
    requires
        v >= 0,
        x > 0,
        y == (v / x + x) / 2,
    ensures
        v < (y + 1) * (y + 1),
        y >= 0,
        v / x >= 0,
{
    div_facts(v, x);
    let q = v / x;
    assert(q >= 0) by (nonlinear_arith)
        requires
            v == q * x + v % x,
            0 <= v % x < x,
            v >= 0,
    ;
    assert(v < (q + 1) * x) by (nonlinear_arith)
        requires
            v == q * x + v % x,
            v % x < x,
    ;
    let s = q + 1 + x;
    assert(4 * ((q + 1) * x) <= s * s) by (nonlinear_arith)
        requires
            s == q + 1 + x,
    ;
    assert(s * s <= (2 * y + 2) * (2 * y + 2)) by (nonlinear_arith)
        requires
            0 <= s <= 2 * y + 2,
    ;
    assert((2 * y + 2) * (2 * y + 2) == 4 * ((y + 1) * (y + 1))) by (nonlinear_arith);
}

/// `r` is the integer square root of `v`.
pub open spec fn is_sqrt(r: int, v: int) -> bool {
    0 <= r && r * r <= v < (r + 1) * (r + 1)
}

/// The square root rounded down.
pub fn sqrt(value: U256) -> (r: U256)
    ensures
        is_sqrt(r@, value@),
{
    if value.is_zero() {
        return U256::ZERO();
    }
    let m: u32 = value.msb();
    // a power of two above the root
    let mut z: U256 = U256::ONE() << (m / 2 + 1);
    let ghost v = value@;
    proof {
        let k = (m / 2 + 1) as int;
        two_values();
        two_mono(k, 129);
        two_step(128);
        two_pos(k);
        two_add(k, k);
        two_mono(m + 1, k + k);
        let t = two(k);
        assert(1 * t == t);
        assert(z@ == t);
        assert(v < (t + 1) * (t + 1)) by (nonlinear_arith)
            requires
                v < t * t,
                t >= 1,
        ;
    }
    loop
        invariant
            v == value@,
            1 <= v < p256(),
            1 <= z@ <= 2 * p128(),
            v < (z@ + 1) * (z@ + 1),
        ensures
            is_sqrt(z@, v),
        decreases z@,
    {
        let div: U256 = value / z;
        proof {
            let x = z@;
            div_facts(v, x);
            let q = v / x;
            assert(0 <= q <= x + 3) by (nonlinear_arith)
                requires
                    v == q * x + v % x,
                    0 <= v % x < x,
                    1 <= v < (x + 1) * (x + 1),
                    x >= 1,
            ;
            two_values();
        }
        let x: U256 = (div + z) >> 1;
        proof {
            assert(x@ == (v / z@ + z@) / 2);
            newton_step(v, z@, x@);
            if x@ == 0 {
                assert((x@ + 1) * (x@ + 1) == 1) by (nonlinear_arith)
                    requires
                        x@ == 0,
                ;
            }
        }
        if x < z {
            z = x;
        } else {
            proof {
                let q = v / z@;
                div_facts(v, z@);
                assert(q >= z@);
                assert(z@ * z@ <= v) by (nonlinear_arith)
                    requires
                        v == q * z@ + v % z@,
                        v % z@ >= 0,
                        q >= z@,
                        z@ >= 1,
                ;
            }
            break;
        }
    }
    z
}

/// The integer square root is unique.
pub proof fn sqrt_unique(a: int, b: int, v: int)
    requires
        is_sqrt(a, v),
        is_sqrt(b, v),
    ensures
        a == b,
{
    if a < b {
        assert((a + 1) * (a + 1) <= b * b) by (nonlinear_arith)
            requires
                0 <= a,
                a + 1 <= b,
        ;
    } else if b < a {
        assert((b + 1) * (b + 1) <= a * a) by (nonlinear_arith)
            requires
                0 <= b,
                b + 1 <= a,
        ;
    }
}

impl U256 {
    /// Half the value, rounded down.
    pub fn shr1(self) -> (r: U256)
        ensures
            r@ == self@ / 2,
    {
        proof {
            two_values();
        }
        self >> 1
    }
}

} // verus!
