//! Long division on 64-bit limbs.
use crate::arith::{
    bpow, bpow_pos, bpow_values, div_facts, div_unique, leading_zeros_64, lval, lval_bound,
    lval_same, lval_split, lval_zero, p128, p256, p64, two,
};
use vstd::prelude::*;

verus! {

/// The product of two 64-bit limbs plus a carry fits in 128 bits.
proof fn limb_product(a: int, b: int, c: int)
    by (nonlinear_arith)
    requires
        0 <= a < p64(),
        0 <= b < p64(),
        0 <= c < p64(),
    ensures
        0 <= a * b,
        0 <= a * b + c < p128(),
        a * b + c <= (p64() - 1) * p64(),
{
}

/// Multiplies the low `m` limbs of `d` by `f`; the last carry comes back.
fn mul_small(d: &[u64; 8], f: u64, m: usize, out: &mut [u64; 9]) -> (carry: u64)
    requires
        m <= 8,
    ensures
        lval(final(out)@, 0, m as int) + carry * bpow(m as int) == f * lval(d@, 0, m as int),
        forall|i: int| m <= i < 9 ==> final(out)@[i] == old(out)@[i],
{
    let mut carry: u64 = 0;
    let mut i: usize = 0;
    assert(f * 0 == 0) by (nonlinear_arith);
    assert(0 * bpow(0) == 0);
    while i < m
        invariant
            i <= m <= 8,
            lval(out@, 0, i as int) + carry * bpow(i as int) == f * lval(d@, 0, i as int),
            forall|k: int| m <= k < 9 ==> out@[k] == old(out)@[k],
        decreases m - i,
    {
        proof {
            limb_product(d[i as int] as int, f as int, carry as int);
        }
        let t: u128 = (d[i] as u128) * (f as u128) + carry as u128;
        let low: u64 = (t % 0x1_0000_0000_0000_0000u128) as u64;
        let high: u64 = (t / 0x1_0000_0000_0000_0000u128) as u64;
        let ghost before = out@;
        out[i] = low;
        proof {
            lval_same(before, out@, 0, i as int);
            let p = bpow(i as int);
            let l = lval(d@, 0, i as int);
            let x = d[i as int] as int;
            assert(bpow(i + 1) == p64() * p);
            assert(low + high * p64() == x * f + carry);
            assert(low * p + high * (p64() * p) == f * (x * p) + carry * p) by (nonlinear_arith)
                requires
                    low + high * p64() == x * f + carry,
            ;
            assert(f * (l + x * p) == f * l + f * (x * p)) by (nonlinear_arith);
        }
        carry = high;
        i = i + 1;
    }
    carry
}


/// The trial quotient from the top two limbs of the numerator and the top limb
/// of the divisor, once corrected with one limb more, is the true quotient or
/// one above it.
proof fn trial_quotient(u: int, v: int, n3: int, ulow: int, v2: int, vlow: int, e: int, qhat: int)
    requires
        e >= 1,
        0 <= ulow < e,
        0 <= vlow < e,
        u == n3 * e + ulow,
        v == v2 * e + vlow,
        v2 >= p64(),
        n3 >= 0,
        0 <= qhat < p64(),
        qhat * v2 <= n3,
    ensures
        (qhat - 1) * v <= u,
{
    assert(qhat * vlow <= (p64() - 1) * e) by (nonlinear_arith)
        requires
            0 <= qhat < p64(),
            0 <= vlow < e,
    ;
    assert(v >= p64() * e) by (nonlinear_arith)
        requires
            v == v2 * e + vlow,
            v2 >= p64(),
            vlow >= 0,
            e >= 1,
    ;
    assert((qhat - 1) * v <= n3 * e) by (nonlinear_arith)
        requires
            v == v2 * e + vlow,
            qhat * v2 <= n3,
            qhat * vlow <= (p64() - 1) * e,
            v >= p64() * e,
            e >= 1,
    ;
}

/// A trial quotient whose product with the top two divisor limbs exceeds the
/// top three numerator limbs is too large.
proof fn trial_too_large(u: int, v: int, n3: int, ulow: int, v2: int, vlow: int, e: int, qhat: int, q: int)
    requires
        e >= 1,
        0 <= ulow < e,
        0 <= vlow < e,
        u == n3 * e + ulow,
        v == v2 * e + vlow,
        q >= 0,
        q * v <= u,
        v2 > 0,
        qhat * v2 > n3,
    ensures
        q < qhat,
{
    assert(q * v2 <= n3) by (nonlinear_arith)
        requires
            e >= 1,
            0 <= ulow < e,
            0 <= vlow,
            u == n3 * e + ulow,
            v == v2 * e + vlow,
            q >= 0,
            q * v <= u,
    ;
    assert(q < qhat) by (nonlinear_arith)
        requires
            q * v2 <= n3,
            qhat * v2 > n3,
            v2 > 0,
    ;
}

/// The first trial quotient is not below the true one.
proof fn trial_not_below(u: int, v: int, n2: int, ul: int, ulow: int, vh: int, vl: int, vlow: int, e: int, q: int)
    requires
        e >= 1,
        0 <= ulow < e,
        0 <= vlow < e,
        0 <= ul < p64(),
        0 <= vl < p64(),
        vh > 0,
        n2 >= 0,
        u == (n2 * p64() + ul) * e + ulow,
        v == (vh * p64() + vl) * e + vlow,
        q >= 0,
        q * v <= u,
    ensures
        q <= n2 / vh,
{
    assert(q * vh <= n2) by (nonlinear_arith)
        requires
            e >= 1,
            0 <= ulow < e,
            0 <= vlow,
            0 <= ul < p64(),
            0 <= vl,
            u == (n2 * p64() + ul) * e + ulow,
            v == (vh * p64() + vl) * e + vlow,
            q >= 0,
            q * v <= u,
    {
        let w = vh * p64() * e;
        assert(q * w <= q * v) by (nonlinear_arith)
            requires
                q >= 0,
                e >= 1,
                vl >= 0,
                vlow >= 0,
                v == (vh * p64() + vl) * e + vlow,
                w == vh * p64() * e,
        ;
        assert(u < (n2 + 1) * p64() * e) by (nonlinear_arith)
            requires
                u == (n2 * p64() + ul) * e + ulow,
                ul < p64(),
                ulow < e,
                e >= 1,
        ;
        assert((q * vh) * (p64() * e) < (n2 + 1) * (p64() * e)) by (nonlinear_arith)
            requires
                q * w <= q * v,
                q * v <= u,
                u < (n2 + 1) * p64() * e,
                w == vh * p64() * e,
        ;
        assert(q * vh < n2 + 1) by (nonlinear_arith)
            requires
                (q * vh) * (p64() * e) < (n2 + 1) * (p64() * e),
                e >= 1,
        ;
    }
    div_facts(n2, vh);
    assert(q <= n2 / vh) by (nonlinear_arith)
        requires
            q * vh <= n2,
            n2 == (n2 / vh) * vh + n2 % vh,
            n2 % vh < vh,
            vh > 0,
    ;
}

/// The trial quotient for the window `u[j ..= j + m]` over the divisor `v[0 .. m]`.
fn estimate(u: &[u64; 9], v: &[u64; 9], m: usize, j: usize) -> (qhat: u64)
    requires
        2 <= m <= 4,
        j + m <= 8,
        v[m - 1] >= 0x8000_0000_0000_0000u64,
        lval(u@, j as int, j + m + 1) < lval(v@, 0, m as int) * p64(),
    ensures
        ({
            let q = lval(u@, j as int, j + m + 1) / lval(v@, 0, m as int);
            q <= qhat <= q + 1
        }),
{
    let uh: u128 = u[j + m] as u128;
    let um: u128 = u[j + m - 1] as u128;
    let ul: u128 = u[j + m - 2] as u128;
    let vh: u128 = v[m - 1] as u128;
    let vl: u128 = v[m - 2] as u128;
    let ghost e = bpow(m - 2);
    let ghost ulow = lval(u@, j as int, j + m - 2);
    let ghost vlow = lval(v@, 0, m - 2);
    let ghost bu = lval(u@, j as int, j + m + 1);
    let ghost bv = lval(v@, 0, m as int);
    let ghost q = bu / bv;
    let n2: u128 = uh * 0x1_0000_0000_0000_0000u128 + um;
    proof {
        bpow_pos(m - 2);
        lval_bound(u@, j as int, j + m - 2);
        lval_bound(v@, 0, m - 2);
        assert(bpow(m - 1) == p64() * e);
        assert(bpow(m as int) == p64() * bpow(m - 1));
        assert(lval(v@, 0, m - 1) == vlow + vl * e);
        assert(lval(u@, j as int, j + m - 1) == ulow + ul * e);
        assert(lval(u@, j as int, j + m as int) == lval(u@, j as int, j + m - 1) + um * bpow(m - 1));
        assert(bv == (vh * p64() + vl) * e + vlow) by (nonlinear_arith)
            requires
                bv == vlow + vl * e + vh * (p64() * e),
        ;
        assert(bu == (n2 * p64() + ul) * e + ulow) by (nonlinear_arith)
            requires
                bu == ulow + ul * e + um * (p64() * e) + uh * (p64() * (p64() * e)),
                n2 == uh * p64() + um,
        ;
        assert(bv > 0) by (nonlinear_arith)
            requires
                bv == (vh * p64() + vl) * e + vlow,
                vh > 0,
                vl >= 0,
                vlow >= 0,
                e >= 1,
        ;
        assert(bu >= 0) by (nonlinear_arith)
            requires
                bu == (n2 * p64() + ul) * e + ulow,
                n2 >= 0,
                ul >= 0,
                ulow >= 0,
                e >= 1,
        ;
        div_facts(bu, bv);
        assert(0 <= q < p64()) by (nonlinear_arith)
            requires
                bu == q * bv + bu % bv,
                0 <= bu % bv < bv,
                0 <= bu < bv * p64(),
        ;
        assert(q * bv <= bu);
        // the top numerator limb does not exceed the top divisor limb
        assert(uh <= vh) by (nonlinear_arith)
            requires
                bu < bv * p64(),
                bu == (n2 * p64() + ul) * e + ulow,
                n2 == uh * p64() + um,
                bv == (vh * p64() + vl) * e + vlow,
                0 <= um,
                0 <= ul,
                0 <= ulow,
                vl < p64(),
                vlow < e,
                e >= 1,
        {
            assert(bv < (vh + 1) * p64() * e) by (nonlinear_arith)
                requires
                    bv == (vh * p64() + vl) * e + vlow,
                    vl < p64(),
                    vlow < e,
                    e >= 1,
            ;
            assert(bu >= uh * p64() * p64() * e) by (nonlinear_arith)
                requires
                    bu == (n2 * p64() + ul) * e + ulow,
                    n2 == uh * p64() + um,
                    0 <= um,
                    0 <= ul,
                    0 <= ulow,
                    e >= 1,
            ;
            assert(uh * (p64() * p64() * e) < (vh + 1) * (p64() * p64() * e)) by (nonlinear_arith)
                requires
                    bu < bv * p64(),
                    bv < (vh + 1) * p64() * e,
                    bu >= uh * p64() * p64() * e,
            ;
            assert(uh < vh + 1) by (nonlinear_arith)
                requires
                    uh * (p64() * p64() * e) < (vh + 1) * (p64() * p64() * e),
                    e >= 1,
            ;
        }
        trial_not_below(bu, bv, n2 as int, ul as int, ulow, vh as int, vl as int, vlow, e, q);
    }
    let mut qhat: u128 = if uh == vh {
        0xFFFF_FFFF_FFFF_FFFFu128
    } else {
        n2 / vh
    };
    proof {
        div_facts(n2 as int, vh as int);
        if uh == vh {
            assert(qhat * vh <= n2) by (nonlinear_arith)
                requires
                    qhat == p64() - 1,
                    n2 == vh * p64() + um,
                    um >= 0,
                    vh >= 0,
            ;
        } else {
            assert(qhat < p64()) by (nonlinear_arith)
                requires
                    n2 == qhat * vh + n2 as int % (vh as int),
                    0 <= n2 as int % (vh as int),
                    n2 == uh * p64() + um,
                    um < p64(),
                    uh < vh,
            ;
        }
    }
    loop
        invariant_except_break
            q <= qhat < p64(),
            qhat * vh <= n2,
            ul < p64(),
            vl < p64(),
            0 < vh < p64(),
            q * bv <= bu,
            q >= 0,
            e >= 1,
            0 <= ulow < e,
            0 <= vlow < e,
            bu == (n2 * p64() + ul) * e + ulow,
            bv == (vh * p64() + vl) * e + vlow,
        ensures
            q <= qhat < p64(),
            qhat * (vh * p64() + vl) <= n2 * p64() + ul,
        decreases qhat,
    {
        assert(qhat * vh <= n2);
        let rhat: u128 = n2 - qhat * vh;
        if rhat >= 0x1_0000_0000_0000_0000u128 {
            proof {
                assert(qhat * (vh * p64() + vl) <= n2 * p64() + ul) by (nonlinear_arith)
                    requires
                        n2 - qhat * vh >= p64(),
                        0 <= qhat < p64(),
                        0 <= vl < p64(),
                        ul >= 0,
                ;
            }
            break;
        }
        proof {
            limb_product(qhat as int, vl as int, 0);
            assert(rhat * p64() == n2 * p64() - qhat * vh * p64()) by (nonlinear_arith)
                requires
                    rhat == n2 - qhat * vh,
            ;
            assert(qhat * (vh * p64() + vl) == qhat * vh * p64() + qhat * vl) by (nonlinear_arith);
        }
        if qhat * vl > rhat * 0x1_0000_0000_0000_0000u128 + ul {
            proof {
                assert(vh * p64() + vl > 0);
                trial_too_large(bu, bv, n2 * p64() + ul, ulow, vh * p64() + vl, vlow, e, qhat as int, q);
                assert((qhat - 1) * vh <= n2) by (nonlinear_arith)
                    requires
                        qhat * vh <= n2,
                        vh >= 0,
                ;
            }
            qhat = qhat - 1;
        } else {
            break;
        }
    }
    proof {
        trial_quotient(bu, bv, n2 * p64() + ul, ulow, vh * p64() + vl, vlow, e, qhat as int);
        // (qhat - 1) * bv <= bu gives qhat - 1 <= q
        assert(qhat - 1 <= q) by (nonlinear_arith)
            requires
                (qhat - 1) * bv <= bu,
                bu == q * bv + bu % bv,
                bu % bv < bv,
                bv > 0,
        ;
    }
    qhat as u64
}

/// Subtracts `q * v[0 .. m]` from the window `u[j ..= j + m]`; the result says
/// whether the difference went below zero and was wrapped.
fn subtract_multiple(u: &mut [u64; 9], v: &[u64; 9], m: usize, j: usize, q: u64) -> (negative: bool)
    requires
        m <= 4,
        j + m <= 8,
    ensures
        lval(final(u)@, j as int, j + m + 1) == lval(old(u)@, j as int, j + m + 1) - q * lval(
            v@,
            0,
            m as int,
        ) + (if negative {
            bpow(m + 1)
        } else {
            0
        }),
        forall|i: int| 0 <= i < 9 && !(j <= i <= j + m) ==> final(u)@[i] == old(u)@[i],
{
    let mut carry: u64 = 0;
    let mut i: usize = 0;
    assert(q * 0 == 0) by (nonlinear_arith);
    assert(0 * bpow(0) == 0);
    while i < m
        invariant
            i <= m <= 4,
            j + m <= 8,
            lval(u@, j as int, j + i) - carry * bpow(i as int) == lval(old(u)@, j as int, j + i) - q
                * lval(v@, 0, i as int),
            forall|k: int| 0 <= k < 9 && !(j <= k < j + i) ==> u@[k] == old(u)@[k],
        decreases m - i,
    {
        proof {
            limb_product(q as int, v[i as int] as int, carry as int);
        }
        let prod: u128 = (q as u128) * (v[i] as u128) + carry as u128;
        let low: u64 = (prod % 0x1_0000_0000_0000_0000u128) as u64;
        let high: u64 = (prod / 0x1_0000_0000_0000_0000u128) as u64;
        let ghost before = u@;
        let digit: u64 = u[j + i];
        let borrow: bool = digit < low;
        assert(low > 0 ==> high < p64() - 1);
        u[j + i] = digit.wrapping_sub(low);
        let next: u64 = if borrow {
            high + 1
        } else {
            high
        };
        proof {
            lval_same(before, u@, j as int, j + i);
            let p = bpow(i as int);
            let x = v[i as int] as int;
            let nd = u[j + i] as int;
            assert(bpow(i + 1) == p64() * p);
            assert(nd - next * p64() == digit - q * x - carry);
            assert(nd * p - next * (p64() * p) == digit * p - q * (x * p) - carry * p)
                by (nonlinear_arith)
                requires
                    nd - next * p64() == digit - q * x - carry,
            ;
            let l = lval(v@, 0, i as int);
            assert(q * (l + x * p) == q * l + q * (x * p)) by (nonlinear_arith);
            assert(lval(u@, j as int, j + i + 1) == lval(u@, j as int, j + i) + nd * p);
            assert(lval(old(u)@, j as int, j + i + 1) == lval(old(u)@, j as int, j + i) + digit * p);
        }
        carry = next;
        i = i + 1;
    }
    let ghost before = u@;
    let digit: u64 = u[j + m];
    u[j + m] = digit.wrapping_sub(carry);
    proof {
        lval_same(before, u@, j as int, j + m);
        let p = bpow(m as int);
        assert(bpow(m + 1) == p64() * p);
        let nd = u[j + m] as int;
        assert(digit < carry ==> nd * p == (digit - carry) * p + p64() * p) by (nonlinear_arith)
            requires
                digit < carry ==> nd == digit - carry + p64(),
        ;
        assert((digit - carry) * p == digit * p - carry * p) by (nonlinear_arith);
        assert(lval(u@, j as int, j + m + 1) == lval(u@, j as int, j + m) + nd * p);
        assert(lval(old(u)@, j as int, j + m + 1) == lval(old(u)@, j as int, j + m) + digit * p);
    }
    digit < carry
}

/// Adds `v[0 .. m]` to the window `u[j ..= j + m]`, dropping the last carry.
fn add_back(u: &mut [u64; 9], v: &[u64; 9], m: usize, j: usize)
    requires
        m <= 4,
        j + m <= 8,
        lval(old(u)@, j as int, j + m + 1) + lval(v@, 0, m as int) >= bpow(m + 1),
    ensures
        lval(final(u)@, j as int, j + m + 1) == lval(old(u)@, j as int, j + m + 1) + lval(
            v@,
            0,
            m as int,
        ) - bpow(m + 1),
        forall|i: int| 0 <= i < 9 && !(j <= i <= j + m) ==> final(u)@[i] == old(u)@[i],
{
    let mut carry: u64 = 0;
    let mut i: usize = 0;
    assert(0 * bpow(0) == 0);
    while i < m
        invariant
            i <= m <= 4,
            j + m <= 8,
            carry <= 1,
            lval(u@, j as int, j + i) + carry * bpow(i as int) == lval(old(u)@, j as int, j + i)
                + lval(v@, 0, i as int),
            forall|k: int| 0 <= k < 9 && !(j <= k < j + i) ==> u@[k] == old(u)@[k],
        decreases m - i,
    {
        let ghost before = u@;
        let digit: u64 = u[j + i];
        let sum: u128 = digit as u128 + v[i] as u128 + carry as u128;
        let low: u64 = (sum % 0x1_0000_0000_0000_0000u128) as u64;
        let high: u64 = (sum / 0x1_0000_0000_0000_0000u128) as u64;
        u[j + i] = low;
        proof {
            lval_same(before, u@, j as int, j + i);
            let p = bpow(i as int);
            let x = v[i as int] as int;
            assert(bpow(i + 1) == p64() * p);
            assert(low + high * p64() == digit + x + carry);
            assert(low * p + high * (p64() * p) == digit * p + x * p + carry * p)
                by (nonlinear_arith)
                requires
                    low + high * p64() == digit + x + carry,
            ;
            assert(lval(u@, j as int, j + i + 1) == lval(u@, j as int, j + i) + low * p);
            assert(lval(old(u)@, j as int, j + i + 1) == lval(old(u)@, j as int, j + i) + digit * p);
        }
        carry = high;
        i = i + 1;
    }
    let ghost before = u@;
    let digit: u64 = u[j + m];
    u[j + m] = digit.wrapping_add(carry);
    proof {
        lval_same(before, u@, j as int, j + m);
        let p = bpow(m as int);
        assert(bpow(m + 1) == p64() * p);
        lval_bound(u@, j as int, j + m);
        let nd = u[j + m] as int;
        let low = lval(u@, j as int, j + m);
        let sum = lval(old(u)@, j as int, j + m + 1) + lval(v@, 0, m as int);
        assert(sum == low + (digit + carry) * p) by (nonlinear_arith)
            requires
                sum == low + carry * p + digit * p,
        ;
        assert(digit + carry >= p64()) by (nonlinear_arith)
            requires
                sum >= p64() * p,
                sum == low + (digit + carry) * p,
                0 <= low < p,
        ;
        assert(nd == digit + carry - p64());
        assert(nd * p == (digit + carry) * p - p64() * p) by (nonlinear_arith)
            requires
                nd == digit + carry - p64(),
        ;
        assert(lval(u@, j as int, j + m + 1) == lval(u@, j as int, j + m) + nd * p);
    }
}

/// One step of the long division: the window `u[j ..= j + m]` is divided by
/// `v[0 .. m]`, the quotient limb comes back and the remainder stays in the window.
fn divide_step(u: &mut [u64; 9], v: &[u64; 9], m: usize, j: usize) -> (q: u64)
    requires
        2 <= m <= 4,
        j + m <= 8,
        v[m - 1] >= 0x8000_0000_0000_0000u64,
        lval(old(u)@, j as int, j + m + 1) < lval(v@, 0, m as int) * p64(),
    ensures
        lval(old(u)@, j as int, j + m + 1) == q * lval(v@, 0, m as int) + lval(
            final(u)@,
            j as int,
            j + m + 1,
        ),
        lval(final(u)@, j as int, j + m + 1) < lval(v@, 0, m as int),
        forall|i: int| 0 <= i < 9 && !(j <= i <= j + m) ==> final(u)@[i] == old(u)@[i],
{
    let ghost bu = lval(u@, j as int, j + m + 1);
    let ghost bv = lval(v@, 0, m as int);
    proof {
        lval_bound(u@, j as int, j + m + 1);
        lval_bound(v@, 0, m - 1);
        bpow_pos(m - 1);
        let top = v[m - 1] as int;
        let p = bpow(m - 1);
        assert(top * p >= 1) by (nonlinear_arith)
            requires
                top >= 1,
                p >= 1,
        ;
        div_facts(bu, bv);
    }
    let qhat: u64 = estimate(u, v, m, j);
    let negative: bool = subtract_multiple(u, v, m, j, qhat);
    proof {
        let q = bu / bv;
        lval_bound(u@, j as int, j + m + 1);
        assert(qhat == q ==> qhat * bv == q * bv);
        assert(qhat == q + 1 ==> qhat * bv == q * bv + bv) by (nonlinear_arith);
        if qhat == q {
            assert(!negative);
        } else {
            assert(negative);
            assert((qhat - 1) * bv == qhat * bv - bv) by (nonlinear_arith);
        }
    }
    if negative {
        add_back(u, v, m, j);
        qhat - 1
    } else {
        qhat
    }
}

/// Divides the 8-limb number `n` by the single limb `d` and returns the low four
/// limbs of the quotient.
fn div_by_single_limb(n: &[u64; 8], d: u64) -> (q: [u64; 4])
    requires
        d > 0,
    ensures
        lval(q@, 0, 4) == (lval(n@, 0, 8) / (d as int)) % p256(),
{
    let mut q: [u64; 4] = [0u64; 4];
    let mut rem: u64 = 0;
    let mut i: usize = 8;
    let ghost mut quot: Seq<u64> = Seq::new(8, |k: int| 0u64);
    while i > 0
        invariant
            i <= 8,
            rem < d,
            quot.len() == 8,
            lval(n@, i as int, 8) == lval(quot, i as int, 8) * d + rem,
            forall|k: int| i <= k < 4 ==> q[k] == quot[k],
        decreases i,
    {
        i = i - 1;
        let cur: u128 = (rem as u128) * 0x1_0000_0000_0000_0000u128 + n[i] as u128;
        let ghost qi = cur as int / (d as int);
        proof {
            div_facts(cur as int, d as int);
            assert(0 <= qi < p64()) by (nonlinear_arith)
                requires
                    cur == qi * d + cur as int % (d as int),
                    0 <= cur as int % (d as int) < d,
                    0 <= cur < d * p64(),
            ;
        }
        let digit: u64 = (cur / (d as u128)) as u64;
        rem = (cur % (d as u128)) as u64;
        if i < 4 {
            q[i] = digit;
        }
        proof {
            let before = quot;
            quot = quot.update(i as int, digit);
            lval_same(before, quot, i + 1, 8);
            lval_split(quot, i as int, i + 1, 8);
            lval_split(n@, i as int, i + 1, 8);
            bpow_values();
            reveal_with_fuel(lval, 2);
            let hi = lval(quot, i + 1, 8);
            let old_rem = lval(n@, i + 1, 8) - hi * d;
            assert(digit * 1 == digit);
            assert(p64() * (hi * d + old_rem) + n[i as int] == (digit + p64() * hi) * d + rem)
                by (nonlinear_arith)
                requires
                    old_rem * p64() + n[i as int] == digit * d + rem,
            ;
        }
    }
    proof {
        lval_same(quot, q@, 0, 4);
        finish(lval(n@, 0, 8), d as int, quot, rem as int, q@);
    }
    q
}

/// The low four limbs of a full quotient are the quotient modulo 2^256.
proof fn finish(n: int, d: int, quot: Seq<u64>, rem: int, q: Seq<u64>)
    requires
        0 <= rem < d,
        n == lval(quot, 0, 8) * d + rem,
        lval(q, 0, 4) == lval(quot, 0, 4),
    ensures
        lval(q, 0, 4) == (n / d) % p256(),
{
    div_unique(n, d, lval(quot, 0, 8), rem);
    lval_split(quot, 0, 4, 8);
    bpow_values();
    lval_bound(quot, 0, 4);
    lval_bound(quot, 4, 8);
    let h = lval(quot, 4, 8);
    div_unique(lval(quot, 0, 8), p256(), h, lval(quot, 0, 4));
}

/// The number of limbs of `d` up to the highest one that is not zero, at least one.
fn significant_limbs(d: &[u64; 8]) -> (m: usize)
    requires
        forall|i: int| 4 <= i < 8 ==> d[i] == 0,
    ensures
        1 <= m <= 4,
        m > 1 ==> d[m - 1] != 0,
        lval(d@, 0, m as int) == lval(d@, 0, 4),
        lval(d@, 0, 8) == lval(d@, 0, 4),
{
    let mut m: usize = 4;
    proof {
        lval_split(d@, 0, 4, 8);
        lval_zero(d@, 4, 8);
        assert(bpow(4) * 0 == 0) by (nonlinear_arith);
    }
    while m > 1 && d[m - 1] == 0
        invariant
            1 <= m <= 4,
            lval(d@, 0, m as int) == lval(d@, 0, 4),
        decreases m,
    {
        assert(lval(d@, 0, m as int) == lval(d@, 0, m - 1) + d[m - 1] * bpow(m - 1));
        assert(0 * bpow(m - 1) == 0) by (nonlinear_arith);
        m = m - 1;
    }
    m
}

/// Scaling by a power of two that puts the top bit of the top limb in place
/// loses nothing and keeps the length.
proof fn normalised(d: Seq<u64>, v: Seq<u64>, m: int, f: int, carry: int)
    requires
        2 <= m <= 4,
        f >= 1,
        0 <= carry,
        0x8000_0000_0000_0000int <= d[m - 1] * f,
        (d[m - 1] + 1) * f <= p64(),
        lval(v, 0, m) + carry * bpow(m) == f * lval(d, 0, m),
    ensures
        lval(v, 0, m) == f * lval(d, 0, m),
        v[m - 1] >= 0x8000_0000_0000_0000u64,
{
    let p = bpow(m - 1);
    bpow_pos(m - 1);
    lval_bound(d, 0, m - 1);
    lval_bound(v, 0, m - 1);
    lval_bound(v, 0, m);
    assert(bpow(m) == p64() * p);
    let top = d[m - 1] as int;
    let dl = lval(d, 0, m - 1);
    let dv = lval(d, 0, m);
    let vl = lval(v, 0, m - 1);
    let vv = lval(v, 0, m);
    let vt = v[m - 1] as int;
    assert(f * dv < p64() * p) by (nonlinear_arith)
        requires
            dv == dl + top * p,
            0 <= dl < p,
            (top + 1) * f <= p64(),
            f >= 1,
            p >= 1,
    {
        assert(f * dv < f * ((top + 1) * p)) by (nonlinear_arith)
            requires
                dv == dl + top * p,
                dl < p,
                f >= 1,
        ;
        assert(f * ((top + 1) * p) == ((top + 1) * f) * p) by (nonlinear_arith);
        assert(((top + 1) * f) * p <= p64() * p) by (nonlinear_arith)
            requires
                (top + 1) * f <= p64(),
                p >= 1,
        ;
    }
    assert(carry == 0) by (nonlinear_arith)
        requires
            vv + carry * (p64() * p) == f * dv,
            f * dv < p64() * p,
            vv >= 0,
            carry >= 0,
            p >= 1,
    ;
    assert(0 * bpow(m) == 0) by (nonlinear_arith);
    assert(f * dv >= 0x8000_0000_0000_0000int * p) by (nonlinear_arith)
        requires
            dv == dl + top * p,
            0 <= dl,
            top * f >= 0x8000_0000_0000_0000int,
            f >= 1,
            p >= 1,
    {
        assert(f * dv >= (top * f) * p) by (nonlinear_arith)
            requires
                dv == dl + top * p,
                0 <= dl,
                f >= 1,
        ;
        assert((top * f) * p >= 0x8000_0000_0000_0000int * p) by (nonlinear_arith)
            requires
                top * f >= 0x8000_0000_0000_0000int,
                p >= 1,
        ;
    }
    assert(vt >= 0x8000_0000_0000_0000int) by (nonlinear_arith)
        requires
            vl + vt * p >= 0x8000_0000_0000_0000int * p,
            vl < p,
            p >= 1,
    ;
}

/// `2^leading_zeros` of the top limb, by which numerator and divisor are scaled.
fn normaliser(top: u64) -> (f: u64)
    requires
        top > 0,
    ensures
        1 <= f <= 0x8000_0000_0000_0000u64,
        0x8000_0000_0000_0000int <= top * f,
        (top + 1) * f <= p64(),
{
    let z: u32 = top.leading_zeros();
    let f: u64 = 1u64 << z;
    proof {
        leading_zeros_64(top);
        vstd::bits::lemma_u64_pow2_no_overflow(z as nat);
        vstd::bits::lemma_u64_shl_is_mul(1, z as u64);
        assert((1u64 << z) == (1u64 << (z as u64)));
        let k = 63 - z;
        vstd::arithmetic::power2::lemma_pow2_adds(k as nat, z as nat);
        vstd::arithmetic::power2::lemma_pow2_adds((k + 1) as nat, z as nat);
        vstd::arithmetic::power2::lemma2_to64();
        vstd::arithmetic::power2::lemma2_to64_rest();
        vstd::arithmetic::power2::lemma_pow2_pos(z as nat);
        let a = two(k);
        let b = two(k + 1);
        assert(f == two(z as int));
        assert(a * f == 0x8000_0000_0000_0000int);
        assert(b * f == p64());
        assert(top * f >= a * f) by (nonlinear_arith)
            requires
                top >= a,
                f >= 0,
        ;
        assert((top + 1) * f <= b * f) by (nonlinear_arith)
            requires
                top < b,
                f >= 0,
        ;
        assert(f <= 0x8000_0000_0000_0000u64) by (nonlinear_arith)
            requires
                (top + 1) * f <= p64(),
                top >= 1,
                f >= 0,
        ;
    }
    f
}

/// Divides the 8-limb number `n` by `d`, whose upper four limbs are zero, and
/// returns the low four limbs of the quotient (Knuth's Algorithm D).
pub fn div_limbs(n: &[u64; 8], d: &[u64; 8]) -> (q: [u64; 4])
    requires
        lval(d@, 0, 4) > 0,
        forall|i: int| 4 <= i < 8 ==> d[i] == 0,
    ensures
        lval(q@, 0, 4) == (lval(n@, 0, 8) / lval(d@, 0, 4)) % p256(),
{
    let m: usize = significant_limbs(d);
    if m == 1 {
        proof {
            reveal_with_fuel(lval, 2);
            assert(d[0] * bpow(0) == d[0]);
        }
        return div_by_single_limb(n, d[0]);
    }
    let f: u64 = normaliser(d[m - 1]);
    let mut v: [u64; 9] = [0u64; 9];
    let vcarry: u64 = mul_small(d, f, m, &mut v);
    let mut u: [u64; 9] = [0u64; 9];
    let ucarry: u64 = mul_small(n, f, 8, &mut u);
    let ghost scaled = f * lval(n@, 0, 8);
    let ghost bv = lval(v@, 0, m as int);
    proof {
        normalised(d@, v@, m as int, f as int, vcarry as int);
        lval_bound(n@, 0, 8);
        lval_bound(u@, 0, 8);
        lval_bound(v@, 0, m - 1);
        bpow_pos(8);
        bpow_pos(m - 1);
        carry_small(lval(n@, 0, 8), f as int, lval(u@, 0, 8), ucarry as int, bpow(8));
    }
    let ghost low = u@;
    u[8] = ucarry;
    let mut q: [u64; 4] = [0u64; 4];
    let ghost mut quot: Seq<u64> = Seq::new(9, |k: int| 0u64);
    let mut j: usize = 9 - m;
    proof {
        lval_same(low, u@, 0, 8);
        assert(lval(u@, 0, 9) == scaled);
        top_window(u@, v@, m as int);
        lval_zero(quot, 0, 9);
        assert(bv * 0 == 0) by (nonlinear_arith);
    }
    while j > 0
        invariant
            2 <= m <= 4,
            j + m <= 9,
            quot.len() == 9,
            bv == lval(v@, 0, m as int),
            v[m - 1] >= 0x8000_0000_0000_0000u64,
            scaled == bv * lval(quot, 0, 9) + lval(u@, 0, 9),
            lval(u@, j as int, 9) < bv,
            forall|i: int| 0 <= i < j ==> quot[i] == 0,
            forall|i: int| j + m <= i < 9 ==> u[i] == 0,
            forall|i: int| j <= i < 4 ==> q[i] == quot[i],
        decreases j,
    {
        let ghost before = u@;
        j = j - 1;
        proof {
            // the window plus the zero limbs above it
            lval_split(u@, j as int, j + 1, 9);
            lval_split(u@, j as int, j + m + 1, 9);
            lval_zero(u@, j + m + 1, 9);
            assert(bpow(m + 1) * 0 == 0) by (nonlinear_arith);
            bpow_values();
            reveal_with_fuel(lval, 2);
            let x = lval(u@, j + 1, 9);
            let x0 = u[j as int] as int;
            assert(x0 * 1 == x0);
            assert(x0 + p64() * x < bv * p64()) by (nonlinear_arith)
                requires
                    x < bv,
                    x0 < p64(),
            ;
        }
        let digit: u64 = divide_step(&mut u, &v, m, j);
        if j < 4 {
            q[j] = digit;
        }
        proof {
            let w0 = lval(before, j as int, j + m + 1);
            let w1 = lval(u@, j as int, j + m + 1);
            lval_same(before, u@, 0, j as int);
            lval_same(before, u@, j + m + 1, 9);
            lval_split(before, 0, j as int, 9);
            lval_split(u@, 0, j as int, 9);
            lval_split(u@, j as int, j + m + 1, 9);
            lval_zero(u@, j + m + 1, 9);
            // the top limb of the window has become zero
            window_top(u@, v@, m as int, j as int);
            let before_quot = quot;
            quot = quot.update(j as int, digit);
            lval_split(before_quot, 0, j as int, 9);
            lval_split(quot, 0, j as int, 9);
            lval_zero(before_quot, 0, j as int);
            lval_zero(quot, 0, j as int);
            lval_split(before_quot, j as int, j + 1, 9);
            lval_split(quot, j as int, j + 1, 9);
            lval_same(before_quot, quot, j + 1, 9);
            bpow_values();
            reveal_with_fuel(lval, 2);
            assert(digit * 1 == digit);
            let e = bpow(j as int);
            let hi = lval(quot, j + 1, 9);
            let low = lval(u@, 0, j as int);
            assert(bv * (e * (p64() * hi)) + (low + e * w0) == bv * (e * (digit + p64() * hi)) + (
            low + e * w1)) by (nonlinear_arith)
                requires
                    w0 == digit * bv + w1,
            ;
        }
    }
    proof {
        lval_split(quot, 0, 8, 9);
        lval_bound(quot, 0, 8);
        lval_bound(n@, 0, 8);
        let r = lval(u@, 0, 9);
        let bd = lval(d@, 0, 4);
        let bn = lval(n@, 0, 8);
        let bq = lval(quot, 0, 9);
        lval_bound(u@, 0, 9);
        // f * n == (f * d) * quot + r with r < f * d
        assert(f * bd == bv);
        assert(bn / bd == bq && bn % bd >= 0) by {
            unscale(bn, bd, f as int, bq, r);
        }
        lval_split(quot, 0, 4, 9);
        lval_bound(quot, 0, 4);
        bpow_values();
        lval_same(quot, q@, 0, 4);
        let h = lval(quot, 4, 9);
        assert(bpow(4) * h == h * p256()) by (nonlinear_arith)
            requires
                bpow(4) == p256(),
        ;
        div_unique(bq, p256(), h, lval(quot, 0, 4));
    }
    q
}

/// A common factor of numerator and divisor does not change the quotient.
proof fn unscale(n: int, d: int, f: int, q: int, r: int)
    requires
        f >= 1,
        d > 0,
        n >= 0,
        f * n == (f * d) * q + r,
        0 <= r < f * d,
    ensures
        n / d == q,
{
    let t = n - d * q;
    assert(f * t == r) by (nonlinear_arith)
        requires
            f * n == (f * d) * q + r,
            t == n - d * q,
    ;
    assert(0 <= t < d) by (nonlinear_arith)
        requires
            f * t == r,
            0 <= r < f * d,
            f >= 1,
    ;
    assert(q * d == d * q) by (nonlinear_arith);
    div_unique(n, d, q, t);
}

/// The carry out of a scaled 8-limb number is below the scale.
proof fn carry_small(n: int, f: int, low: int, carry: int, p: int)
    by (nonlinear_arith)
    requires
        0 <= n < p,
        f >= 1,
        low >= 0,
        p >= 1,
        low + carry * p == f * n,
    ensures
        carry < f,
{
}

/// The top limbs of the scaled numerator are below the scaled divisor.
proof fn top_window(u: Seq<u64>, v: Seq<u64>, m: int)
    requires
        2 <= m <= 4,
        u[8] < 0x8000_0000_0000_0000u64,
        v[m - 1] >= 0x8000_0000_0000_0000u64,
    ensures
        lval(u, 9 - m, 9) < lval(v, 0, m),
{
    let p = bpow(m - 1);
    lval_bound(u, 9 - m, 8);
    lval_bound(v, 0, m - 1);
    let a = u[8] as int;
    let b = v[m - 1] as int;
    let x = lval(u, 9 - m, 8);
    assert(x + a * p < b * p) by (nonlinear_arith)
        requires
            x < p,
            a + 1 <= b,
            p >= 0,
    ;
}

/// A window that holds less than an `m`-limb number has a zero top limb.
proof fn window_top(u: Seq<u64>, v: Seq<u64>, m: int, j: int)
    requires
        2 <= m <= 4,
        0 <= j,
        lval(u, j, j + m + 1) < lval(v, 0, m),
    ensures
        u[j + m] == 0,
{
    lval_bound(v, 0, m);
    lval_bound(u, j, j + m);
    bpow_pos(m);
    let t = u[j + m] as int;
    let p = bpow(m);
    let low = lval(u, j, j + m);
    assert(t == 0) by (nonlinear_arith)
        requires
            low + t * p < p,
            low >= 0,
            t >= 0,
            p >= 1,
    ;
}

} // verus!
