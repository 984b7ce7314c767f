//! What borrowing and repaying is for: the ratio of value to debt comes to the target that
//! is asked for.
use crate::arith::{div_facts, p256, wrap};
use crate::debt_model::{
    best_loan, borrowing, bought, debt_plan, debt_rebalanced, delevered, fee_on, first_loan,
    first_split, levered, loan_fee, loan_split, matched_split, plan_terms, ratio_after,
    ratio_bounds, repaid, repaying, search_step, searched, PlanView, Search, Terms,
};
use crate::full_math::{ceil_mul_div, ceil_mul_div_is_ceiling, floor_mul_div};
use crate::pool_model::PoolView;
use crate::types::abs;
use crate::vault_laws::unwinding_moves;
use crate::vault_math::{
    by_role, ceil_quotient, fee_scale, one_wad, price_of, sat_sub, smaller, to_stable, to_volatile,
    wadd, wmul, wsub,
};
use crate::vault_model::{
    gross_value, minted_range, minted_share, pro_rata_deposited, totals, unwound, Minting, Slot,
    VaultView,
};
use vstd::prelude::*;

verus! {

/// 2^76, above every amount that these laws speak of.
#[verifier::inline]
pub open spec fn p76() -> int {
    0x1000_0000_0000_0000_0000int
}

/// 2^100, above every target ratio that these laws speak of.
#[verifier::inline]
pub open spec fn p100() -> int {
    0x10_0000_0000_0000_0000_0000_0000int
}

/// A quotient below a bound that fits is the one of integers, rounded down.
pub proof fn floor_facts(a: int, b: int, d: int, bound: int)
    requires
        0 <= a,
        0 <= b,
        0 < d,
        bound <= p256(),
        a * b < bound * d,
    ensures
        0 <= floor_mul_div(a, b, d) < bound,
        floor_mul_div(a, b, d) * d <= a * b,
        a * b < (floor_mul_div(a, b, d) + 1) * d,
        floor_mul_div(a, b, d) == a * b / d,
{
    let n = a * b;
    assert(0 <= n) by (nonlinear_arith)
        requires
            n == a * b,
            0 <= a,
            0 <= b,
    ;
    div_facts(n, d);
    let q = n / d;
    assert(0 <= q < bound && (q + 1) * d == q * d + d) by (nonlinear_arith)
        requires
            n == q * d + n % d,
            0 <= n % d < d,
            0 <= n,
            n < bound * d,
    ;
    small(q);
}

/// A number of 256 bits is not changed by wrapping.
pub proof fn small(x: int)
    requires
        0 <= x < p256(),
    ensures
        wrap(x) == x,
{
    vstd::arithmetic::div_mod::lemma_small_mod(x as nat, p256() as nat);
}

/// A quotient up to a bound that fits is the one of integers, rounded up.
pub proof fn ceil_facts(a: int, b: int, d: int, bound: int)
    requires
        0 <= a,
        0 <= b,
        0 < d,
        0 <= bound < p256(),
        a * b <= bound * d,
    ensures
        ceil_mul_div(a, b, d) is Some,
        0 <= ceil_mul_div(a, b, d)->0 <= bound,
        ceil_mul_div(a, b, d)->0 * d >= a * b,
        (ceil_mul_div(a, b, d)->0 - 1) * d < a * b,
{
    let n = a * b;
    assert(0 <= n) by (nonlinear_arith)
        requires
            n == a * b,
            0 <= a,
            0 <= b,
    ;
    div_facts(n, d);
    let f = n / d;
    let q = if n % d == 0 {
        f
    } else {
        f + 1
    };
    assert(0 <= f && (f + 1) * d == f * d + d && (f - 1) * d == f * d - d) by (nonlinear_arith)
        requires
            n == f * d + n % d,
            0 <= n % d < d,
            0 <= n,
    ;
    assert(q <= bound) by (nonlinear_arith)
        requires
            (q - 1) * d < n,
            n <= bound * d,
            d > 0,
    ;
    ceil_mul_div_is_ceiling(a, b, d, q);
}

/// A fee in millionths is the part that it says, rounded down.
proof fn fee_facts(amount: int, fee: int)
    requires
        0 <= amount < p256(),
        0 <= fee <= fee_scale(),
    ensures
        0 <= fee_on(amount, fee) <= amount,
        fee_on(amount, fee) * fee_scale() <= amount * fee,
        amount * fee < (fee_on(amount, fee) + 1) * fee_scale(),
{
    assert(amount * fee <= amount * fee_scale()) by (nonlinear_arith)
        requires
            0 <= amount,
            0 <= fee <= fee_scale(),
    ;
    if amount + 1 <= p256() {
        assert(amount * fee < (amount + 1) * fee_scale());
        floor_facts(amount, fee, fee_scale(), amount + 1);
    }
}

// ── the first loan ──

/// Terms of which nothing leaves 256 bits, with a target above one and value above the
/// target.
spec fn loan_terms(t: Terms) -> bool {
    &&& 0 <= t.value < p76()
    &&& 0 <= t.debt < p76()
    &&& one_wad() < t.tc < p100()
    &&& 0 <= t.fee <= 500_000
    &&& t.value * one_wad() > t.tc * t.debt
}

/// How far the value and a loan are above the target for the debt and the loan.
spec fn miss(t: Terms, loan: int) -> int {
    (t.value + loan) * one_wad() - t.tc * (t.debt + loan)
}

/// 2^156, above every split of a loan.
#[verifier::inline]
spec fn p156() -> int {
    0x1000_0000_0000_0000_0000_0000_0000_0000_0000_0000int
}

/// 2^140, above every loan.
#[verifier::inline]
spec fn p140() -> int {
    0x1000_0000_0000_0000_0000_0000_0000_0000_0000int
}

/// The first loan brings the ratio to the target, or above it by no more than the fee.
proof fn first_loan_meets(t: Terms, x: int, plan: int)
    requires
        loan_terms(t),
        0 <= x,
        0 <= plan,
        0 < x + plan < p156(),
    ensures
        first_loan(t, x, plan) is Some,
        0 < first_loan(t, x, plan)->0 < p140(),
        ({
            let loan = first_loan(t, x, plan)->0;
            &&& one_wad() - t.tc < miss(t, loan)
            &&& miss(t, loan) * fee_scale() <= one_wad() * (loan * t.fee)
        }),
{
    reveal(first_loan);
    let r = x + plan;
    small(r);
    fee_facts(x, t.fee);
    let f = fee_on(x, t.fee);
    let net = r - f;
    let td = t.tc * t.debt;
    let vw = t.value * one_wad();
    assert(0 <= td) by (nonlinear_arith)
        requires
            td == t.tc * t.debt,
            t.tc >= 0,
            t.debt >= 0,
    ;
    small(vw);
    small(td);
    let n = vw - td;
    let cost = t.tc * r;
    let gain = one_wad() * net;
    assert(0 <= cost < p256()) by (nonlinear_arith)
        requires
            cost == t.tc * r,
            0 <= t.tc < p100(),
            0 <= r < p156(),
    ;
    small(cost);
    small(gain);
    let excess = t.tc - one_wad();
    let den = r * excess + one_wad() * f;
    assert(cost - gain == den) by (nonlinear_arith)
        requires
            cost == t.tc * r,
            gain == one_wad() * net,
            net == r - f,
            excess == t.tc - one_wad(),
            den == r * excess + one_wad() * f,
    ;
    assert(den >= r) by (nonlinear_arith)
        requires
            den == r * excess + one_wad() * f,
            excess >= 1,
            f >= 0,
            r >= 0,
    ;
    assert(r * n <= n * den) by (nonlinear_arith)
        requires
            den >= r,
            n >= 0,
    ;
    ceil_facts(r, n, den, n);
    let loan = ceil_mul_div(r, n, den)->0;
    assert(loan > 0) by (nonlinear_arith)
        requires
            loan * den >= r * n,
            r > 0,
            n > 0,
            den > 0,
    ;
    let e = miss(t, loan);
    assert(e == n - loan * excess) by (nonlinear_arith)
        requires
            e == (t.value + loan) * one_wad() - t.tc * (t.debt + loan),
            vw == t.value * one_wad(),
            td == t.tc * t.debt,
            n == vw - td,
            excess == t.tc - one_wad(),
    ;
    // r * e lies between (loan - 1) * wad * f - r * excess and loan * wad * f
    assert(r * e == r * n - r * (loan * excess)) by (nonlinear_arith)
        requires
            e == n - loan * excess,
    ;
    assert(loan * den == r * (loan * excess) + one_wad() * (loan * f)) by (nonlinear_arith)
        requires
            den == r * excess + one_wad() * f,
    ;
    assert((loan - 1) * den == loan * den - den) by (nonlinear_arith);
    assert(loan * f >= f) by (nonlinear_arith)
        requires
            loan >= 1,
            f >= 0,
    ;
    assert(r * e > -(r * excess));
    assert(e > -excess) by (nonlinear_arith)
        requires
            r * e > -(r * excess),
            r > 0,
    ;
    assert(r * e <= one_wad() * (loan * f));
    assert((loan * f) * fee_scale() <= (loan * t.fee) * r) by (nonlinear_arith)
        requires
            f * fee_scale() <= x * t.fee,
            x <= r,
            loan >= 0,
            t.fee >= 0,
    {
        assert(x * t.fee <= r * t.fee) by (nonlinear_arith)
            requires
                x <= r,
                t.fee >= 0,
        ;
        assert(loan * (f * fee_scale()) <= loan * (r * t.fee)) by (nonlinear_arith)
            requires
                f * fee_scale() <= r * t.fee,
                loan >= 0,
        ;
        assert(loan * (f * fee_scale()) == (loan * f) * fee_scale()) by (nonlinear_arith);
        assert(loan * (r * t.fee) == (loan * t.fee) * r) by (nonlinear_arith);
    }
    let cap = loan * t.fee;
    assert(r * (e * fee_scale()) <= r * (one_wad() * cap)) by (nonlinear_arith)
        requires
            r * e <= one_wad() * (loan * f),
            (loan * f) * fee_scale() <= cap * r,
    ;
    assert(e * fee_scale() <= one_wad() * cap) by (nonlinear_arith)
        requires
            r * (e * fee_scale()) <= r * (one_wad() * cap),
            r > 0,
    ;
}

// ── the ratio after a loan ──

/// The ratio after a loan: what the value and the loan, less a fee, are to the debt and the
/// loan, rounded down. The fee is no more than its part of the loan.
proof fn ratio_facts(t: Terms, x: int, plan: int, loan: int) -> (f: int)
    requires
        loan_terms(t),
        0 <= x,
        0 <= plan,
        0 < x + plan < p156(),
        0 < loan < 2 * p140(),
    ensures
        ratio_after(t, x + plan, plan, loan) is Some,
        0 <= f <= loan,
        f * fee_scale() <= loan * t.fee,
        loan_fee(t, x + plan, plan, loan) == Some(f),
        ({
            let cr = ratio_after(t, x + plan, plan, loan)->0;
            &&& 0 <= cr
            &&& cr * (t.debt + loan) <= (t.value + loan - f) * one_wad()
            &&& (t.value + loan - f) * one_wad() < (cr + 1) * (t.debt + loan)
        }),
{
    reveal(ratio_after);
    reveal(loan_fee);
    let r = x + plan;
    assert(plan * loan <= loan * r) by (nonlinear_arith)
        requires
            0 <= plan <= r,
            loan >= 0,
    ;
    ceil_facts(plan, loan, r, loan);
    let s = ceil_mul_div(plan, loan, r)->0;
    let part = loan - s;
    fee_facts(part, t.fee);
    let f = fee_on(part, t.fee);
    assert(part * t.fee <= loan * t.fee) by (nonlinear_arith)
        requires
            part <= loan,
            t.fee >= 0,
    ;
    let value = t.value + (loan - f);
    let debt = t.debt + loan;
    small(value);
    small(debt);
    assert(value * one_wad() < p256() * debt) by (nonlinear_arith)
        requires
            0 <= value < p76() + 2 * p140(),
            debt >= 1,
    ;
    floor_facts(value, one_wad(), debt, p256());
    f
}

/// How far off the ratio after a loan is, where the loan is the first one.
proof fn first_ratio_is_close(t: Terms, x: int, plan: int)
    requires
        loan_terms(t),
        0 <= x,
        0 <= plan,
        0 < x + plan < p156(),
    ensures
        ({
            let loan = first_loan(t, x, plan)->0;
            let cr = ratio_after(t, x + plan, plan, loan)->0;
            let debt = t.debt + loan;
            &&& ratio_after(t, x + plan, plan, loan) is Some
            &&& (abs(cr - t.tc) * fee_scale()) * debt <= (one_wad() * t.fee + fee_scale()) * debt
                + fee_scale() * t.tc
        }),
{
    first_loan_meets(t, x, plan);
    let loan = first_loan(t, x, plan)->0;
    let f = ratio_facts(t, x, plan, loan);
    let cr = ratio_after(t, x + plan, plan, loan)->0;
    let debt = t.debt + loan;
    let e = miss(t, loan);
    let cap = loan * t.fee;
    let whole = debt * t.fee;
    assert(cap <= whole) by (nonlinear_arith)
        requires
            cap == loan * t.fee,
            whole == debt * t.fee,
            loan <= debt,
            t.fee >= 0,
    ;
    let d = cr - t.tc;
    // d * debt <= e - f * wad and d * debt > e - f * wad - debt
    assert(d * debt <= e - f * one_wad() && e - f * one_wad() - debt < d * debt)
        by (nonlinear_arith)
        requires
            d == cr - t.tc,
            e == (t.value + loan) * one_wad() - t.tc * debt,
            cr * debt <= (t.value + loan - f) * one_wad(),
            (t.value + loan - f) * one_wad() < (cr + 1) * debt,
    ;
    assert((one_wad() * t.fee + fee_scale()) * debt == one_wad() * whole + fee_scale() * debt)
        by (nonlinear_arith)
        requires
            whole == debt * t.fee,
    ;
    assert((d * fee_scale()) * debt == fee_scale() * (d * debt)) by (nonlinear_arith);
    assert(((-d) * fee_scale()) * debt == fee_scale() * (-(d * debt))) by (nonlinear_arith);
    assert(fee_scale() * (d * debt) <= one_wad() * whole + fee_scale() * debt + fee_scale() * t.tc);
    assert(fee_scale() * (-(d * debt)) <= one_wad() * whole + fee_scale() * debt + fee_scale()
        * t.tc);
}

// ── the search ──

/// What the search keeps: its best loan is in bounds and its distance is that of the ratio
/// after it.
spec fn search_ok(t: Terms, x: int, plan: int, first: int, s: Search) -> bool {
    &&& 0 < s.low <= s.high <= 2 * first
    &&& 0 < s.best <= 2 * first
    &&& ratio_after(t, x + plan, plan, s.best) is Some
    &&& s.off == abs(ratio_after(t, x + plan, plan, s.best)->0 - t.tc)
}

proof fn search_ends(t: Terms, x: int, plan: int, first: int, s: Search, n: nat)
    requires
        loan_terms(t),
        0 <= x,
        0 <= plan,
        0 < x + plan < p156(),
        0 < first < p140(),
        search_ok(t, x, plan, first, s),
    ensures
        searched(t, x + plan, plan, s, n) matches Some(u) && search_ok(t, x, plan, first, u) && u.off
            <= s.off,
    decreases n,
{
    reveal(search_step);
    small(s.high - s.low);
    if n > 0 && wsub(s.high, s.low) > 1 {
        small(s.low + s.high);
        let mid = (s.low + s.high) / 2;
        let f = ratio_facts(t, x, plan, mid);
        let u = search_step(t, x + plan, plan, s)->0;
        if u.off > t.tc / 1000 {
            search_ends(t, x, plan, first, u, (n - 1) as nat);
        }
    }
}

/// The loan that is settled on exists, and the ratio after it is as close to the target as
/// after the first one.
proof fn best_is_close(t: Terms, x: int, plan: int)
    requires
        loan_terms(t),
        0 <= x,
        0 <= plan,
        0 < x + plan < p156(),
    ensures
        ({
            let first = first_loan(t, x, plan)->0;
            let loan = best_loan(t, x + plan, plan, first)->0;
            let r1 = ratio_after(t, x + plan, plan, first)->0;
            let r = ratio_after(t, x + plan, plan, loan)->0;
            &&& first_loan(t, x, plan) is Some
            &&& best_loan(t, x + plan, plan, first) is Some
            &&& 0 < loan <= 2 * first
            &&& abs(r - t.tc) <= abs(r1 - t.tc)
            &&& abs(r1 - t.tc) <= t.tc / 1000 ==> loan == first
        }),
{
    reveal(best_loan);
    first_loan_meets(t, x, plan);
    let first = first_loan(t, x, plan)->0;
    let f = ratio_facts(t, x, plan, first);
    let cr = ratio_after(t, x + plan, plan, first)->0;
    small(first * 2);
    let low = if first > 1 {
        first / 2
    } else {
        1
    };
    let s = Search { low, high: wmul(first, 2), best: first, off: abs(cr - t.tc) };
    search_ends(t, x, plan, first, s, 40);
}

/// The loan that is settled on meets the target within the fee and rounding.
proof fn loan_is_right(t: Terms, x: int, plan: int)
    requires
        loan_terms(t),
        0 <= x,
        0 <= plan,
        0 < x + plan < p156(),
    ensures
        ({
            let loan = best_loan(t, x + plan, plan, first_loan(t, x, plan)->0)->0;
            meets_target(t.value, t.debt, loan, t.tc, t.fee)
        }),
{
    best_is_close(t, x, plan);
    first_loan_meets(t, x, plan);
    first_ratio_is_close(t, x, plan);
    let first = first_loan(t, x, plan)->0;
    let loan = best_loan(t, x + plan, plan, first)->0;
    let f = ratio_facts(t, x, plan, loan);
    let r1 = ratio_after(t, x + plan, plan, first)->0;
    let cr = ratio_after(t, x + plan, plan, loan)->0;
    let off1 = abs(r1 - t.tc);
    let off = abs(cr - t.tc);
    let a = t.debt + first;
    let b = t.debt + loan;
    let k = one_wad() * t.fee + fee_scale();
    let g = off1 * fee_scale() - k;
    assert(g * a <= fee_scale() * t.tc) by (nonlinear_arith)
        requires
            g == off1 * fee_scale() - k,
            (off1 * fee_scale()) * a <= k * a + fee_scale() * t.tc,
    ;
    assert(g * b <= 2 * fee_scale() * t.tc) by (nonlinear_arith)
        requires
            g * a <= fee_scale() * t.tc,
            0 < b <= 2 * a,
            t.tc >= 0,
    ;
    assert((off * fee_scale()) * b <= k * b + 2 * fee_scale() * t.tc) by (nonlinear_arith)
        requires
            g == off1 * fee_scale() - k,
            g * b <= 2 * fee_scale() * t.tc,
            off <= off1,
            b > 0,
    ;
    let e = (t.value + loan) * one_wad() - t.tc * b;
    let d = cr - t.tc;
    assert(d * b <= e - f * one_wad() && e - f * one_wad() - b < d * b) by (nonlinear_arith)
        requires
            d == cr - t.tc,
            e == (t.value + loan) * one_wad() - t.tc * b,
            cr * b <= (t.value + loan - f) * one_wad(),
            (t.value + loan - f) * one_wad() < (cr + 1) * b,
    ;
    let cap = loan * t.fee;
    let whole = b * t.fee;
    assert(cap <= whole) by (nonlinear_arith)
        requires
            cap == loan * t.fee,
            whole == b * t.fee,
            loan <= b,
            t.fee >= 0,
    ;
    assert(k * b == one_wad() * whole + fee_scale() * b) by (nonlinear_arith)
        requires
            k == one_wad() * t.fee + fee_scale(),
            whole == b * t.fee,
    ;
    assert(-(off * b) <= d * b && d * b <= off * b) by (nonlinear_arith)
        requires
            off == d || off == -d,
            off >= 0,
            b > 0,
    ;
    assert((off * fee_scale()) * b == fee_scale() * (off * b)) by (nonlinear_arith);
    if t.fee <= 900 && b >= 40_000 {
        assert(a >= 20_000);
        assert(off1 <= t.tc / 1000) by {
            assert(g * 20_000 <= fee_scale() * t.tc) by (nonlinear_arith)
                requires
                    g * a <= fee_scale() * t.tc,
                    a >= 20_000,
                    t.tc >= 0,
            ;
            assert(g * 20_000 == (off1 * fee_scale() - k) * 20_000);
        }
        assert(loan == first);
    }
}

// ── the split of a loan ──

/// Terms in which all amounts are in bounds, and what is held of the volatile token is
/// worth something.
spec fn sized_terms(t: Terms) -> bool {
    &&& loan_terms(t)
    &&& 0 <= t.stable < p76()
    &&& 0 <= t.stable_up < p76()
    &&& 0 <= t.volatile < p76()
    &&& 0 <= t.volatile_up < p76()
    &&& 0 <= t.ratio < p76() * one_wad()
    &&& 0 < t.price < p124()
    &&& t.volatile > 0 ==> to_stable(t.vol0, t.volatile, t.price) > 0
    &&& 0 <= t.target() < t.value
}

/// 2^124, above every price.
#[verifier::inline]
pub open spec fn p124() -> int {
    0x1000_0000_0000_0000_0000_0000_0000_0000int
}

/// The amount of volatile tokens that a stable amount is worth is no more than the amount
/// times what is held, where what is held is worth one unit.
proof fn worth_facts(t: Terms, s: int)
    requires
        sized_terms(t),
        0 <= s < p100(),
    ensures
        ({
            let n = to_volatile(t.vol0, s, t.price);
            &&& 0 <= n < 0x1_0000_0000 * p156()
            &&& t.volatile > 0 ==> n <= s * t.volatile
            &&& forall|m: int|
                0 <= m <= n ==> 0 <= #[trigger] to_stable(t.vol0, m, t.price) <= s
        }),
{
    let n = to_volatile(t.vol0, s, t.price);
    let h = to_stable(t.vol0, t.volatile, t.price);
    if t.vol0 {
        assert(s * one_wad() < (0x1_0000_0000 * p156()) * t.price) by (nonlinear_arith)
            requires
                0 <= s < p100(),
                t.price >= 1,
        ;
        floor_facts(s, one_wad(), t.price, 0x1_0000_0000 * p156());
        assert(t.volatile * t.price < p256() * one_wad()) by (nonlinear_arith)
            requires
                0 <= t.volatile < p76(),
                0 < t.price < p124(),
        ;
        floor_facts(t.volatile, t.price, one_wad(), p256());
        if t.volatile > 0 {
            assert(n <= s * t.volatile) by (nonlinear_arith)
                requires
                    n * t.price <= s * one_wad(),
                    h * one_wad() <= t.volatile * t.price,
                    h >= 1,
                    s >= 0,
                    t.price > 0,
            {
                assert(s * one_wad() <= s * (t.volatile * t.price)) by (nonlinear_arith)
                    requires
                        one_wad() <= t.volatile * t.price,
                        s >= 0,
                ;
                assert(s * (t.volatile * t.price) == (s * t.volatile) * t.price)
                    by (nonlinear_arith);
            }
        }
        assert forall|m: int| 0 <= m <= n implies 0 <= #[trigger] to_stable(t.vol0, m, t.price)
            <= s by {
            assert(m * t.price <= s * one_wad() && s * one_wad() < (s + 1) * one_wad())
                by (nonlinear_arith)
                requires
                    0 <= m <= n,
                    n * t.price <= s * one_wad(),
                    t.price > 0,
            ;
            floor_facts(m, t.price, one_wad(), s + 1);
        }
    } else {
        assert(s * t.price < (0x1_0000_0000 * p156()) * one_wad()) by (nonlinear_arith)
            requires
                0 <= s < p100(),
                0 < t.price < p124(),
        ;
        floor_facts(s, t.price, one_wad(), 0x1_0000_0000 * p156());
        assert(t.volatile * one_wad() < p256() * t.price) by (nonlinear_arith)
            requires
                0 <= t.volatile < p76(),
                t.price >= 1,
        ;
        floor_facts(t.volatile, one_wad(), t.price, p256());
        if t.volatile > 0 {
            assert(n <= s * t.volatile) by (nonlinear_arith)
                requires
                    n * one_wad() <= s * t.price,
                    h * t.price <= t.volatile * one_wad(),
                    h >= 1,
                    s >= 0,
                    t.price > 0,
            {
                assert(s * t.price <= s * (t.volatile * one_wad())) by (nonlinear_arith)
                    requires
                        t.price <= t.volatile * one_wad(),
                        s >= 0,
                ;
                assert(s * (t.volatile * one_wad()) == (s * t.volatile) * one_wad())
                    by (nonlinear_arith);
            }
        }
        assert forall|m: int| 0 <= m <= n implies 0 <= #[trigger] to_stable(t.vol0, m, t.price)
            <= s by {
            assert(m * one_wad() <= s * t.price && s * t.price < (s + 1) * t.price)
                by (nonlinear_arith)
                requires
                    0 <= m <= n,
                    n * one_wad() <= s * t.price,
                    t.price > 0,
            ;
            floor_facts(m, one_wad(), t.price, s + 1);
        }
    }
}

/// The bounds of the ratio of the holdings.
proof fn bounds_facts(t: Terms)
    requires
        sized_terms(t),
        t.volatile > 0,
        t.volatile_up > 0,
    ensures
        ({
            let (low, high) = ratio_bounds(t);
            &&& 0 <= low <= high < p140()
            &&& low * t.volatile <= t.stable * one_wad()
        }),
{
    let up = floor_mul_div(t.stable_up, one_wad(), t.volatile_up);
    let down = floor_mul_div(t.stable, one_wad(), t.volatile);
    assert(t.stable_up * one_wad() < (p76() * one_wad()) * t.volatile_up && t.stable * one_wad() < (
    p76() * one_wad()) * t.volatile) by (nonlinear_arith)
        requires
            0 <= t.stable_up < p76(),
            0 <= t.stable < p76(),
            t.volatile_up >= 1,
            t.volatile >= 1,
    ;
    floor_facts(t.stable_up, one_wad(), t.volatile_up, p76() * one_wad());
    floor_facts(t.stable, one_wad(), t.volatile, p76() * one_wad());
    let lo = if up <= down {
        up
    } else {
        down
    };
    let hi = if up >= down {
        up
    } else {
        down
    };
    floor_facts(lo, 940_000, fee_scale(), lo + 1);
    floor_facts(hi, 1_060_000, fee_scale(), 2 * hi + 1);
    let (low, high) = ratio_bounds(t);
    assert(low <= lo);
    assert(lo <= hi);
    assert(low * t.volatile <= down * t.volatile) by (nonlinear_arith)
        requires
            low <= down,
            t.volatile >= 0,
    ;
}

/// What is put beside a volatile amount is bounded by the stable amount that it is worth
/// times what is held.
proof fn beside_facts(t: Terms, n: int, s: int)
    requires
        sized_terms(t),
        t.volatile > 0,
        t.volatile_up > 0,
        0 <= s < 0x100 * p76(),
        0 <= n <= s * t.volatile,
    ensures
        0 <= floor_mul_div(n, ratio_bounds(t).0, one_wad()) <= s * t.stable,
        floor_mul_div(n, ratio_bounds(t).0, one_wad()) * one_wad() <= n * ratio_bounds(t).0,
        0 <= s * t.stable,
{
    bounds_facts(t);
    let low = ratio_bounds(t).0;
    let b = s * t.stable;
    assert(0 <= b < p256() - 1) by (nonlinear_arith)
        requires
            b == s * t.stable,
            0 <= s < 0x100 * p76(),
            0 <= t.stable < p76(),
    ;
    assert(n * low <= b * one_wad()) by (nonlinear_arith)
        requires
            0 <= n <= s * t.volatile,
            low >= 0,
            low * t.volatile <= t.stable * one_wad(),
            s >= 0,
            b == s * t.stable,
    {
        assert(n * low <= (s * t.volatile) * low) by (nonlinear_arith)
            requires
                n <= s * t.volatile,
                low >= 0,
        ;
        assert((s * t.volatile) * low == s * (low * t.volatile)) by (nonlinear_arith);
        assert(s * (low * t.volatile) <= s * (t.stable * one_wad())) by (nonlinear_arith)
            requires
                low * t.volatile <= t.stable * one_wad(),
                s >= 0,
        ;
        assert(s * (t.stable * one_wad()) == b * one_wad()) by (nonlinear_arith)
            requires
                b == s * t.stable,
        ;
    }
    assert((b + 1) * one_wad() == b * one_wad() + one_wad());
    floor_facts(n, low, one_wad(), b + 1);
}

/// The first split: nothing, or both parts in bounds.
proof fn first_split_facts(t: Terms)
    requires
        sized_terms(t),
    ensures
        first_split(t) matches Some((b, x, plan)) && 0 <= x <= b < p76() && plan == b - x && b <= t.value
            - t.target(),
{
    reveal(first_split);
    let after = fee_scale() - t.fee;
    small(after);
    floor_facts(one_wad(), t.fee, fee_scale(), one_wad() + 1);
    assert(t.ratio * after < (t.ratio + 1) * fee_scale()) by (nonlinear_arith)
        requires
            0 <= after <= fee_scale(),
            t.ratio >= 0,
    ;
    floor_facts(t.ratio, after, fee_scale(), t.ratio + 1);
    let denom = one_wad() + floor_mul_div(t.ratio, after, fee_scale());
    small(denom);
    let denom_fee = denom + floor_mul_div(one_wad(), t.fee, fee_scale());
    small(denom_fee);
    let e = t.value - t.target();
    assert(e * denom < (e + 1) * denom_fee) by (nonlinear_arith)
        requires
            0 < denom <= denom_fee,
            e >= 0,
    ;
    floor_facts(e, denom, denom_fee, e + 1);
    let b = floor_mul_div(e, denom, denom_fee);
    assert(b * one_wad() < (b + 1) * denom) by (nonlinear_arith)
        requires
            one_wad() <= denom,
            b >= 0,
    ;
    floor_facts(b, one_wad(), denom, b + 1);
}

/// The matched split is in bounds.
proof fn matched_split_facts(t: Terms, x: int, plan: int)
    requires
        sized_terms(t),
        0 <= x < p76(),
        0 <= plan < p76(),
    ensures
        matched_split(t, x, plan) matches Some((y, z)) ==> 0 <= y && 0 <= z && y + z < p156(),
{
    reveal(matched_split);
    if t.volatile_up != 0 && t.stable_up != 0 && t.volatile != 0 && t.stable != 0 {
        let (low, high) = ratio_bounds(t);
        bounds_facts(t);
        fee_facts(x, t.fee);
        let a = x - fee_on(x, t.fee);
        worth_facts(t, a);
        let got = bought(t, x);
        beside_facts(t, got, a);
        product_small(a, t.stable);
        let after = fee_scale() - t.fee;
        small(after);
        small(got + 10);
        let beside = floor_mul_div(got, low, one_wad());
        if let Some(least) = ceil_mul_div(beside, one_wad(), high) {
            assert(least >= 0) by {
                small(0);
            }
            if wadd(got, 10) >= least {
                let n = sat_sub(least, 10);
                let m = to_stable(t.vol0, n, t.price);
                assert(0 <= m <= a);
                assert(m * fee_scale() <= (2 * m) * after) by (nonlinear_arith)
                    requires
                        2 * after >= fee_scale(),
                        m >= 0,
                ;
                ceil_facts(m, fee_scale(), after, 2 * m);
                let y = ceil_mul_div(m, fee_scale(), after)->0;
                fee_facts(y, t.fee);
                let c = y - fee_on(y, t.fee);
                worth_facts(t, c);
                beside_facts(t, bought(t, y), c);
                product_small(c, t.stable);
            }
        }
    }
}

proof fn product_small(s: int, stable: int)
    requires
        0 <= s < 2 * p76(),
        0 <= stable < p76(),
    ensures
        s * stable < p156() - 2 * p76(),
{
    assert(s * stable <= (2 * p76()) * p76()) by (nonlinear_arith)
        requires
            0 <= s < 2 * p76(),
            0 <= stable < p76(),
    ;
}

// ── the search from nothing ──

proof fn nothing_is_found(t: Terms, plan: int, s: Search, n: nat)
    requires
        0 <= s.low,
        0 <= s.high,
        s.low + s.high <= 1,
        s.best == 0,
    ensures
        searched(t, 0, plan, s, n) matches Some(u) ==> u.best == 0,
    decreases n,
{
    reveal(search_step);
    small(s.low + s.high);
    if n > 0 && wsub(s.high, s.low) > 1 {
        if let Some(u) = search_step(t, 0, plan, s) {
            if u.off > t.tc / 1000 {
                nothing_is_found(t, plan, u, (n - 1) as nat);
            }
        }
    }
}

/// A split of nothing gives no loan.
proof fn no_split_no_loan(t: Terms)
    ensures
        first_loan(t, 0, 0) == Some(0int),
        best_loan(t, 0, 0, 0) matches Some(loan) ==> loan == 0,
{
    reveal(first_loan);
    reveal(best_loan);
    small(0);
    if let Some(cr) = ratio_after(t, 0, 0, 0) {
        nothing_is_found(
            t,
            0,
            Search { low: 1, high: wmul(0, 2), best: 0, off: abs(cr - t.tc) },
            40,
        );
    }
}

/// A plan to borrow is made from a split that is not empty, and its loan meets the target.
proof fn borrowing_is_right(t: Terms)
    requires
        sized_terms(t),
    ensures
        borrowing(t) matches Some(plan) ==> {
            &&& plan.mode == 0 || plan.mode == 1
            &&& plan.mode == 0 ==> plan.amount == 0
            &&& plan.mode == 1 ==> 0 < plan.amount < 2 * p140() && 0 <= plan.swap_fee
                <= plan.amount && plan.swap_fee * 1_000_000 <= plan.amount * t.fee && meets_target(
                t.value,
                t.debt,
                plan.amount,
                t.tc,
                t.fee,
            )
        },
{
    reveal(borrowing);
    first_split_facts(t);
    if let Some((b, x0, plan0)) = first_split(t) {
        matched_split_facts(t, x0, plan0);
        if let Some((x, plan)) = matched_split(t, x0, plan0) {
            if x + plan > 0 {
                loan_is_right(t, x, plan);
                best_is_close(t, x, plan);
                first_loan_meets(t, x, plan);
                let loan = best_loan(t, x + plan, plan, first_loan(t, x, plan)->0)->0;
                let f = ratio_facts(t, x, plan, loan);
                small(x + plan);
            } else {
                small(0);
                no_split_no_loan(t);
            }
        }
    }
}

// ── vaults ──

/// A vault whose amounts are in bounds, at a pool whose price is not zero. What it holds of
/// the volatile token, if anything, is worth at least one stable unit.
pub open spec fn amounts_in_bounds(v: VaultView, p: PoolView) -> bool {
    let (t0, t1) = totals(v, p, false)->0;
    let (u0, u1) = totals(v, p, true)->0;
    let (volatile, stable) = by_role(v.vol0(), t0, t1);
    &&& totals(v, p, false) is Some
    &&& totals(v, p, true) is Some
    &&& 0 <= t0 < p76()
    &&& 0 <= t1 < p76()
    &&& 0 <= u0 < p76()
    &&& 0 <= u1 < p76()
    &&& gross_value(v, p, None)->0 < p76()
    &&& 0 <= v.debt < p76()
    &&& 0 <= v.supply < p256()
    &&& price_of(p.price) > 0
    &&& volatile > 0 ==> to_stable(v.vol0(), volatile, price_of(p.price)) > 0
}

/// A price has less than 124 bits.
pub proof fn price_is_bounded(sqrt_price: int)
    ensures
        0 <= price_of(sqrt_price) < p124(),
{
    let s = wmul(sqrt_price, sqrt_price);
    assert(s * one_wad() < p124() * crate::arith::p192()) by (nonlinear_arith)
        requires
            0 <= s < p256(),
    ;
    floor_facts(s, one_wad(), crate::arith::p192(), p124());
}

/// What a plan is made from, for a vault in bounds.
proof fn terms_facts(v: VaultView, p: PoolView, tc: int, fee: int)
    requires
        amounts_in_bounds(v, p),
        one_wad() < tc < p100(),
        0 <= fee <= 500_000,
    ensures
        plan_terms(v, p, None, tc, fee) matches Some(t) && t.value == gross_value(v, p, None)->0
            && t.debt == v.debt && t.tc == tc && t.fee == fee && t.supply == v.supply && t.vol0
            == v.vol0() && t.price == price_of(p.price) && 0 <= t.ratio < p76() * one_wad()
            && t.target() * one_wad() <= tc * v.debt && tc * v.debt < (t.target() + 1) * one_wad()
            && 0 <= t.target() && 0 <= t.value < p76() && (t.value > t.target() ==> sized_terms(t)),
{
    reveal(plan_terms);
    price_is_bounded(p.price);
    let t = plan_terms(v, p, None, tc, fee)->0;
    let vup = to_stable(t.vol0, t.volatile_up, t.price);
    if vup != 0 {
        assert(vup > 0) by {
            assert(vup >= 0);
        }
        assert(t.stable_up * one_wad() < (p76() * one_wad()) * vup) by (nonlinear_arith)
            requires
                0 <= t.stable_up < p76(),
                vup >= 1,
        ;
        floor_facts(t.stable_up, one_wad(), vup, p76() * one_wad());
    }
    assert(0 <= v.debt * tc < p256() * one_wad()) by (nonlinear_arith)
        requires
            0 <= v.debt < p76(),
            0 < tc < p100(),
    ;
    floor_facts(v.debt, tc, one_wad(), p256());
    assert(v.debt * tc == tc * v.debt) by (nonlinear_arith);
    if t.value > t.target() {
        assert(t.value * one_wad() > t.tc * t.debt);
    }
}

proof fn share_keeps_debt(m: Minting, slot: Slot, shares: int, supply: int)
    ensures
        minted_share(m, slot, shares, supply) matches Some(n) ==> n.vault.debt == m.vault.debt,
{
    reveal(minted_share);
    reveal(minted_range);
}

/// A deposit in proportion leaves the debt alone.
proof fn deposit_keeps_debt(v: VaultView, p: PoolView, d0: int, d1: int)
    ensures
        pro_rata_deposited(v, p, d0, d1) matches Some((w, q, a0, a1)) ==> w.debt == v.debt,
{
    reveal(pro_rata_deposited);
    assert forall|m: Minting, slot: Slot, shares: int, supply: int| #[trigger]
        minted_share(m, slot, shares, supply) matches Some(n) ==> n.vault.debt == m.vault.debt by {
        share_keeps_debt(m, slot, shares, supply);
    }
}

/// Levering adds the loan to the debt.
proof fn levering_adds_loan(v: VaultView, p: PoolView, loan: int, fee: int)
    requires
        0 <= v.debt + loan < p256(),
    ensures
        levered(v, p, loan, fee) matches Some((w, q)) ==> w.debt == v.debt + loan,
{
    reveal(levered);
    small(v.debt + loan);
    assert forall|d0: int, d1: int| #[trigger]
        pro_rata_deposited(
            VaultView { debt: wadd(v.debt, loan), ..v },
            p,
            d0,
            d1,
        ) matches Some((w, q, a0, a1)) ==> w.debt == wadd(v.debt, loan) by {
        deposit_keeps_debt(VaultView { debt: wadd(v.debt, loan), ..v }, p, d0, d1);
    }
}

/// Delevering burns the shares of the plan and never adds to the debt.
proof fn delevering_lowers_debt(v: VaultView, p: PoolView, plan: PlanView)
    requires
        0 <= v.debt < p256(),
        0 <= plan.amount,
        0 <= v.supply < p256(),
        0 <= plan.shares,
    ensures
        delevered(v, p, plan) matches Some((w, q)) ==> {
            &&& 0 <= w.debt <= v.debt
            &&& plan.shares > v.supply ==> w == v
            &&& plan.shares <= v.supply ==> w.supply == v.supply - plan.shares
        },
{
    reveal(delevered);
    if plan.shares <= v.supply {
        small(v.supply - plan.shares);
    }
    if plan.shares != 0 && v.supply >= plan.shares {
        let price = price_of(p.price);
        let i0 = floor_mul_div(v.idle0, plan.shares, v.supply);
        let i1 = floor_mul_div(v.idle1, plan.shares, v.supply);
        let w = VaultView { supply: wsub(v.supply, plan.shares), ..v }.minus_idle(i0, i1);
        unwinding_moves(w, p, plan.amount, price);
        if let Some(u) = unwound(w, p, plan.amount, price) {
            let (volatile, stable) = by_role(v.vol0(), wadd(i0, u.out0), wadd(i1, u.out1));
            let x = u.vault.minus_idle(u.out0, u.out1);
            let back = smaller(repaid(plan, v.vol0(), volatile, stable, price), x.debt);
            assert(back >= 0);
            small(x.debt - back);
        }
    }
}

/// The plan to repay, with a fee of no more than one half.
proof fn repaying_facts(t: Terms)
    requires
        0 <= t.value < p76(),
        0 <= t.debt < p76(),
        0 <= t.supply < p256(),
        0 <= t.fee <= 500_000,
        0 <= t.ratio < p76() * one_wad(),
        t.value < t.target() < p256(),
    ensures
        repaying(t) matches Some(plan) && plan.mode == 2 && 0 <= plan.amount <= t.debt && 0
            <= plan.shares <= t.supply,
{
    reveal(repaying);
}

/// A loan meets a target ratio: with it the value before fees stands to the debt as the
/// target says, but for twice the fee and rounding. With a fee of up to nine
/// hundredths of a per cent and a debt that is not tiny, it stands no lower than the
/// target, but for one unit, and no higher than the fee on the loan accounts for.
pub open spec fn meets_target(value: int, debt: int, loan: int, tc: int, fee: int) -> bool {
    let above = (value + loan) * 1_000_000_000_000_000_000 - tc * (debt + loan);
    let slack = 2_000_000_000_000_000_000 * ((debt + loan) * fee) + 2_000_000 * (debt + loan)
        + 2_000_000 * tc;
    &&& loan > 0
    &&& -slack <= above * 1_000_000 <= slack
    &&& fee <= 900 && debt + loan >= 40_000 ==> {
        &&& above > 1_000_000_000_000_000_000 - tc
        &&& above * 1_000_000 <= 1_000_000_000_000_000_000 * (loan * fee)
    }
}

/// Rebalancing takes a loan only where the ratio of value to debt is above the target that
/// is passed, and the loan brings it down to that target: within the fee and rounding.
pub proof fn loan_meets_target(v: VaultView, p: PoolView, tc: int, fee: int)
    requires
        amounts_in_bounds(v, p),
        1_000_000_000_000_000_000 < tc < p100(),
        0 <= fee <= 500_000,
        debt_rebalanced(v, p, tc, fee) is Some,
        (debt_rebalanced(v, p, tc, fee)->0).0.debt > v.debt,
    ensures
        ({
            let value = gross_value(v, p, None)->0;
            let loan = (debt_rebalanced(v, p, tc, fee)->0).0.debt - v.debt;
            &&& value * 1_000_000_000_000_000_000 > tc * v.debt
            &&& meets_target(value, v.debt, loan, tc, fee)
        }),
{
    reveal(debt_plan);
    terms_facts(v, p, tc, fee);
    let t = plan_terms(v, p, None, tc, fee)->0;
    let plan = debt_plan(v, p, None, tc, fee)->0;
    if t.value > t.target() {
        borrowing_is_right(t);
        if plan.mode == 1 {
            levering_adds_loan(v, p, plan.amount, plan.swap_fee);
        }
    } else if t.target() > t.value {
        repaying_facts(t);
        delevering_lowers_debt(v, p, plan);
    }
}

/// What a repayment gives up: the part of the shares that the shortfall is of the value, or
/// more by no more than twice the fee and rounding.
proof fn repaying_gives_up(t: Terms)
    requires
        0 < t.value < p76(),
        0 < t.debt < p76(),
        0 <= t.supply < p256(),
        0 <= t.fee <= 100_000,
        0 <= t.ratio < p76() * one_wad(),
        t.value < t.target() < p76() * p100(),
    ensures
        repaying(t) matches Some(plan) && plan.amount > 0 && gives_up(
            t.value,
            t.target() - t.value,
            t.supply,
            plan.shares,
            t.fee,
        ),
{
    reveal(repaying);
    repaying_facts(t);
    let short = t.target() - t.value;
    let unit = t.ratio + one_wad();
    small(unit);
    floor_facts(one_wad(), t.fee, fee_scale(), one_wad());
    let part = floor_mul_div(one_wad(), t.fee, fee_scale());
    assert(part == 1_000_000_000_000 * t.fee);
    small(part * 2);
    let twice = part * 2;
    assert(twice * one_wad() < (twice + 1) * unit) by (nonlinear_arith)
        requires
            unit >= one_wad(),
            twice >= 0,
    ;
    floor_facts(twice, one_wad(), unit, twice + 1);
    let term = floor_mul_div(twice, one_wad(), unit);
    let left = one_wad() - term;
    let need = short * one_wad();
    small(need);
    div_facts(need, left);
    let raw = ceil_quotient(need, left);
    assert(raw * left >= need && (raw - 1) * left < need && raw >= short) by {
        let q = need / left;
        assert((q + 1) * left == q * left + left && (q - 1) * left == q * left - left)
            by (nonlinear_arith);
        assert(raw == q || raw == q + 1);
        assert(raw >= short) by (nonlinear_arith)
            requires
                raw * left >= short * one_wad(),
                0 < left <= one_wad(),
                short >= 0,
        ;
    }
    let wanted = smaller(raw, t.value);
    // the part after the fee
    let kept = fee_scale() - 2 * t.fee;
    assert((raw - 1) * kept <= short * fee_scale()) by (nonlinear_arith)
        requires
            (raw - 1) * left < short * one_wad(),
            left >= 1_000_000_000_000 * kept,
            raw >= 1,
            kept >= 0,
    {
        assert((raw - 1) * (1_000_000_000_000 * kept) <= (raw - 1) * left) by (nonlinear_arith)
            requires
                left >= 1_000_000_000_000 * kept,
                raw >= 1,
        ;
        assert((raw - 1) * (1_000_000_000_000 * kept) == 1_000_000_000_000 * ((raw - 1) * kept))
            by (nonlinear_arith);
    }
    assert(t.supply * wanted < (t.supply + 1) * t.value) by (nonlinear_arith)
        requires
            0 <= wanted <= t.value,
            t.value > 0,
            t.supply >= 0,
    ;
    floor_facts(t.supply, wanted, t.value, t.supply + 1);
    let shares = floor_mul_div(t.supply, wanted, t.value);
    let least = smaller(short, t.value);
    assert(t.supply * least <= t.supply * wanted) by (nonlinear_arith)
        requires
            least <= wanted,
            t.supply >= 0,
    ;
    assert((shares * t.value) * kept <= t.supply * (short * fee_scale() + kept))
        by (nonlinear_arith)
        requires
            shares * t.value <= t.supply * wanted,
            wanted <= raw,
            (raw - 1) * kept <= short * fee_scale(),
            kept >= 0,
            t.supply >= 0,
    {
        assert(raw * kept == (raw - 1) * kept + kept) by (nonlinear_arith);
        assert((shares * t.value) * kept <= (t.supply * wanted) * kept) by (nonlinear_arith)
            requires
                shares * t.value <= t.supply * wanted,
                kept >= 0,
        ;
        assert((t.supply * wanted) * kept == t.supply * (wanted * kept)) by (nonlinear_arith);
        assert(wanted * kept <= raw * kept) by (nonlinear_arith)
            requires
                wanted <= raw,
                kept >= 0,
        ;
        assert(t.supply * (wanted * kept) <= t.supply * (short * fee_scale() + kept))
            by (nonlinear_arith)
            requires
                wanted * kept <= short * fee_scale() + kept,
                t.supply >= 0,
        ;
    }
    // what is repaid is not nothing
    assert(wanted * t.ratio < (wanted + 1) * unit) by (nonlinear_arith)
        requires
            unit >= t.ratio,
            unit > 0,
            wanted >= 0,
    ;
    floor_facts(wanted, t.ratio, unit, wanted + 1);
    let stable = floor_mul_div(wanted, t.ratio, unit);
    let rest = wanted - stable;
    fee_facts(rest, t.fee);
    let f = fee_on(rest, t.fee);
    assert(rest > 0 ==> f < rest) by {
        if rest > 0 {
            assert(rest * t.fee <= rest * 100_000) by (nonlinear_arith)
                requires
                    t.fee <= 100_000,
                    rest >= 0,
            ;
        }
    }
    small(stable + sat_sub(rest, f));
}

/// Of `supply` shares in a vault worth `value`, the shares burned for a shortfall: as large a
/// part as the shortfall is of the value, rounded, but no more than all; and larger by no
/// more than twice a fee in millionths, and one unit of value.
pub open spec fn gives_up(value: int, short: int, supply: int, burned: int, fee: int) -> bool {
    &&& 0 <= burned <= supply
    &&& supply * (if short < value {
        short
    } else {
        value
    }) < (burned + 1) * value
    &&& (burned * value) * (1_000_000 - 2 * fee) <= supply * (short * 1_000_000 + (1_000_000 - 2
        * fee))
}

/// Rebalancing repays only where the ratio of value to debt is below the target that is
/// passed, never adds to the debt then, and gives up the part of the shares that the value
/// falls short of the target by.
pub proof fn repayment_makes_up_shortfall(v: VaultView, p: PoolView, tc: int, fee: int)
    requires
        amounts_in_bounds(v, p),
        1_000_000_000_000_000_000 < tc < p100(),
        0 <= fee <= 100_000,
        gross_value(v, p, None)->0 > 0,
        debt_rebalanced(v, p, tc, fee) is Some,
        tc * v.debt >= (gross_value(v, p, None)->0 + 1) * 1_000_000_000_000_000_000,
    ensures
        ({
            let w = (debt_rebalanced(v, p, tc, fee)->0).0;
            let value = gross_value(v, p, None)->0;
            let short = tc * v.debt / 1_000_000_000_000_000_000 - value;
            &&& 0 <= w.debt <= v.debt
            &&& gives_up(value, short, v.supply, v.supply - w.supply, fee)
        }),
{
    reveal(debt_plan);
    terms_facts(v, p, tc, fee);
    let t = plan_terms(v, p, None, tc, fee)->0;
    let plan = debt_plan(v, p, None, tc, fee)->0;
    let n = tc * v.debt;
    div_facts(n, one_wad());
    assert(t.target() == n / one_wad());
    assert(v.debt > 0) by (nonlinear_arith)
        requires
            n == tc * v.debt,
            n >= 1,
            v.debt >= 0,
    ;
    assert(n < p76() * p100()) by (nonlinear_arith)
        requires
            n == tc * v.debt,
            0 <= v.debt < p76(),
            0 < tc < p100(),
    ;
    repaying_gives_up(t);
    repaying_facts(t);
    delevering_lowers_debt(v, p, plan);
}

/// The debt moves only towards the target: it grows only where the ratio of value to debt is
/// above it and shrinks only where the ratio is below. On target nothing changes, nor for a
/// target of one or less.
pub proof fn debt_moves_towards_target(v: VaultView, p: PoolView, tc: int, fee: int)
    requires
        amounts_in_bounds(v, p),
        tc < p100(),
        0 <= fee <= 500_000,
        debt_rebalanced(v, p, tc, fee) is Some,
    ensures
        ({
            let (w, q) = debt_rebalanced(v, p, tc, fee)->0;
            let value = gross_value(v, p, None)->0;
            &&& tc <= 1_000_000_000_000_000_000 ==> w == v && q == p
            &&& w.debt > v.debt ==> value * 1_000_000_000_000_000_000 > tc * v.debt
            &&& w.debt < v.debt ==> value * 1_000_000_000_000_000_000 < tc * v.debt
            &&& tc > 1_000_000_000_000_000_000 && value == tc * v.debt / 1_000_000_000_000_000_000
                ==> w == v && q == p
        }),
{
    reveal(debt_plan);
    if tc > one_wad() {
        terms_facts(v, p, tc, fee);
        let t = plan_terms(v, p, None, tc, fee)->0;
        let plan = debt_plan(v, p, None, tc, fee)->0;
        div_facts(tc * v.debt, one_wad());
        assert(t.target() == tc * v.debt / one_wad());
        if t.value > t.target() {
            borrowing_is_right(t);
            if plan.mode == 1 {
                levering_adds_loan(v, p, plan.amount, plan.swap_fee);
            }
        } else if t.target() > t.value {
            repaying_facts(t);
            delevering_lowers_debt(v, p, plan);
        }
    }
}

// ── two targets ──

proof fn floor_grows(a: int, c: int, b: int, d: int, bound: int)
    requires
        0 <= a <= c,
        0 <= b,
        0 < d,
        bound <= p256(),
        c * b < bound * d,
    ensures
        0 <= floor_mul_div(a, b, d) <= floor_mul_div(c, b, d),
{
    assert(a * b <= c * b) by (nonlinear_arith)
        requires
            a <= c,
            b >= 0,
    ;
    floor_facts(a, b, d, bound);
    floor_facts(c, b, d, bound);
    let q = floor_mul_div(a, b, d);
    let r = floor_mul_div(c, b, d);
    assert(q <= r) by (nonlinear_arith)
        requires
            q * d <= a * b,
            a * b <= c * b,
            c * b < (r + 1) * d,
            d > 0,
    ;
}

/// What is left of an amount after the fee grows with the amount.
proof fn after_fee_grows(a: int, c: int, fee: int)
    requires
        0 <= a <= c < p256(),
        0 <= fee <= fee_scale(),
    ensures
        0 <= a - fee_on(a, fee) <= c - fee_on(c, fee),
{
    fee_facts(a, fee);
    fee_facts(c, fee);
    assert((c - a) * fee <= (c - a) * fee_scale()) by (nonlinear_arith)
        requires
            a <= c,
            fee <= fee_scale(),
    ;
    assert((c - a) * fee == c * fee - a * fee) by (nonlinear_arith);
}

/// Whether a split leaves anything to borrow.
spec fn splits(t: Terms) -> bool {
    &&& first_split(t) matches Some((b, x, plan))
    &&& b != 0
    &&& matched_split(t, x, plan) matches Some((y, z))
    &&& y + z > 0
}

/// A loan is taken just where the split leaves anything to borrow.
proof fn loan_needs_split(t: Terms)
    requires
        sized_terms(t),
        borrowing(t) is Some,
    ensures
        (borrowing(t)->0).mode == 1 <==> splits(t),
{
    reveal(borrowing);
    first_split_facts(t);
    if let Some((b, x0, plan0)) = first_split(t) {
        matched_split_facts(t, x0, plan0);
        if let Some((x, plan)) = matched_split(t, x0, plan0) {
            if x + plan > 0 {
                best_is_close(t, x, plan);
                first_loan_meets(t, x, plan);
                let loan = best_loan(t, x + plan, plan, first_loan(t, x, plan)->0)->0;
                let f = ratio_facts(t, x, plan, loan);
                small(x + plan);
            } else {
                small(0);
                no_split_no_loan(t);
            }
        }
    }
}

/// The stable value of what the matched split keeps of the volatile tokens that an amount
/// buys: the split is empty just where it is zero.
proof fn matched_worth(t: Terms, x: int, plan: int) -> (m: int)
    requires
        sized_terms(t),
        0 <= x < p76(),
        0 <= plan < p76(),
        t.volatile_up != 0 && t.stable_up != 0 && t.volatile != 0 && t.stable != 0,
        matched_split(t, x, plan) is Some,
    ensures
        ({
            let (y, z) = matched_split(t, x, plan)->0;
            let (low, high) = ratio_bounds(t);
            let beside = floor_mul_div(bought(t, x), low, one_wad());
            let least = ceil_mul_div(beside, one_wad(), high)->0;
            &&& high > 0
            &&& ceil_mul_div(beside, one_wad(), high) is Some
            &&& 0 <= beside
            &&& 0 <= least <= bought(t, x)
            &&& m == to_stable(t.vol0, sat_sub(least, 10), t.price)
            &&& 0 <= m
            &&& m > 0 <==> y + z > 0
        }),
{
    reveal(matched_split);
    let (low, high) = ratio_bounds(t);
    bounds_facts(t);
    fee_facts(x, t.fee);
    let a = x - fee_on(x, t.fee);
    worth_facts(t, a);
    let got = bought(t, x);
    beside_facts(t, got, a);
    product_small(a, t.stable);
    let after = fee_scale() - t.fee;
    small(after);
    small(got + 10);
    let beside = floor_mul_div(got, low, one_wad());
    assert(beside * one_wad() <= got * high) by (nonlinear_arith)
        requires
            beside * one_wad() <= got * low,
            low <= high,
            got >= 0,
    ;
    ceil_facts(beside, one_wad(), high, got);
    let least = ceil_mul_div(beside, one_wad(), high)->0;
    let n = sat_sub(least, 10);
    let m = to_stable(t.vol0, n, t.price);
    assert(m * fee_scale() <= (2 * m) * after) by (nonlinear_arith)
        requires
            2 * after >= fee_scale(),
            m >= 0,
    ;
    ceil_facts(m, fee_scale(), after, 2 * m);
    let y = ceil_mul_div(m, fee_scale(), after)->0;
    fee_facts(y, t.fee);
    let c = y - fee_on(y, t.fee);
    worth_facts(t, c);
    beside_facts(t, bought(t, y), c);
    if m > 0 {
        assert(y > 0) by (nonlinear_arith)
            requires
                y * after >= m * fee_scale(),
                m > 0,
                after > 0,
        ;
    } else {
        assert(c == 0 && bought(t, y) <= 0 * t.volatile);
        assert(bought(t, y) == 0);
        assert(0 * t.stable == 0);
    }
    m
}

/// With a larger excess of value both parts of the first split are no smaller.
proof fn larger_first_split(t: Terms, u: Terms)
    requires
        sized_terms(t),
        sized_terms(u),
        u == (Terms { tc: u.tc, ..t }),
        t.value - t.target() <= u.value - u.target(),
    ensures
        first_split(t) is Some,
        first_split(u) is Some,
        (first_split(t)->0).0 <= (first_split(u)->0).0,
        (first_split(t)->0).1 <= (first_split(u)->0).1,
{
    first_split_facts(t);
    first_split_facts(u);
    let (b, x, plan) = first_split(t)->0;
    let (c, z, rest) = first_split(u)->0;
    reveal(first_split);
    let after = fee_scale() - t.fee;
    small(after);
    floor_facts(one_wad(), t.fee, fee_scale(), one_wad() + 1);
    assert(t.ratio * after < (t.ratio + 1) * fee_scale()) by (nonlinear_arith)
        requires
            0 <= after <= fee_scale(),
            t.ratio >= 0,
    ;
    floor_facts(t.ratio, after, fee_scale(), t.ratio + 1);
    let denom = one_wad() + floor_mul_div(t.ratio, after, fee_scale());
    small(denom);
    let denom_fee = denom + floor_mul_div(one_wad(), t.fee, fee_scale());
    small(denom_fee);
    let e = t.value - t.target();
    let g = u.value - u.target();
    assert(g * denom < (g + 1) * denom_fee) by (nonlinear_arith)
        requires
            0 < denom <= denom_fee,
            g >= 0,
    ;
    floor_grows(e, g, denom, denom_fee, g + 1);
    assert(c * one_wad() < (c + 1) * denom) by (nonlinear_arith)
        requires
            one_wad() <= denom,
            c >= 0,
    ;
    floor_grows(b, c, one_wad(), denom, c + 1);
}

/// A larger stable amount is worth no fewer volatile tokens.
proof fn worth_grows(t: Terms, a: int, d: int)
    requires
        sized_terms(t),
        0 <= a <= d < p76(),
    ensures
        0 <= to_volatile(t.vol0, a, t.price) <= to_volatile(t.vol0, d, t.price),
{
    if t.vol0 {
        assert(d * one_wad() < p256() * t.price) by (nonlinear_arith)
            requires
                0 <= d < p76(),
                t.price >= 1,
        ;
        floor_grows(a, d, one_wad(), t.price, p256());
    } else {
        assert(d * t.price < p256() * one_wad()) by (nonlinear_arith)
            requires
                0 <= d < p76(),
                0 < t.price < p124(),
        ;
        floor_grows(a, d, t.price, one_wad(), p256());
    }
}

/// More volatile tokens, of no more than a stable amount buys, are worth no less.
proof fn value_grows(t: Terms, i: int, j: int, d: int)
    requires
        sized_terms(t),
        0 <= i <= j <= to_volatile(t.vol0, d, t.price),
        0 <= d < p76(),
    ensures
        to_stable(t.vol0, i, t.price) <= to_stable(t.vol0, j, t.price),
{
    worth_facts(t, d);
    let more = to_volatile(t.vol0, d, t.price);
    if t.vol0 {
        assert(d * one_wad() < p256() * t.price) by (nonlinear_arith)
            requires
                0 <= d < p76(),
                t.price >= 1,
        ;
        floor_facts(d, one_wad(), t.price, p256());
        assert(j * t.price < p256() * one_wad()) by (nonlinear_arith)
            requires
                0 <= j <= more,
                t.price > 0,
                more * t.price <= d * one_wad(),
                0 <= d < p76(),
        ;
        floor_grows(i, j, t.price, one_wad(), p256());
    } else {
        assert(j * one_wad() < p256() * t.price) by (nonlinear_arith)
            requires
                0 <= j < 0x1_0000_0000 * p156(),
                t.price >= 1,
        ;
        floor_grows(i, j, one_wad(), t.price, p256());
    }
}

/// Of more volatile tokens the matched split keeps no fewer.
proof fn kept_grows(t: Terms, got: int, more: int, d: int)
    requires
        sized_terms(t),
        t.volatile > 0,
        t.volatile_up > 0,
        0 <= d < p76(),
        0 <= got <= more <= d * t.volatile,
        ratio_bounds(t).1 > 0,
    ensures
        ({
            let (low, high) = ratio_bounds(t);
            let beside = floor_mul_div(got, low, one_wad());
            let far = floor_mul_div(more, low, one_wad());
            ceil_mul_div(beside, one_wad(), high)->0 <= ceil_mul_div(far, one_wad(), high)->0
        }),
{
    let (low, high) = ratio_bounds(t);
    bounds_facts(t);
    let b = d * t.stable;
    beside_facts(t, got, d);
    beside_facts(t, more, d);
    product_small(d, t.stable);
    let beside = floor_mul_div(got, low, one_wad());
    let far = floor_mul_div(more, low, one_wad());
    assert(more * low < (b + 1) * one_wad()) by (nonlinear_arith)
        requires
            0 <= more <= d * t.volatile,
            low >= 0,
            low * t.volatile <= t.stable * one_wad(),
            d >= 0,
            b == d * t.stable,
    {
        assert(more * low <= (d * t.volatile) * low) by (nonlinear_arith)
            requires
                more <= d * t.volatile,
                low >= 0,
        ;
        assert((d * t.volatile) * low == d * (low * t.volatile)) by (nonlinear_arith);
        assert(d * (low * t.volatile) <= d * (t.stable * one_wad())) by (nonlinear_arith)
            requires
                low * t.volatile <= t.stable * one_wad(),
                d >= 0,
        ;
        assert(d * (t.stable * one_wad()) == b * one_wad()) by (nonlinear_arith)
            requires
                b == d * t.stable,
        ;
    }
    floor_grows(got, more, low, one_wad(), b + 1);
    assert(far * one_wad() <= (far * one_wad()) * high) by (nonlinear_arith)
        requires
            far >= 0,
            high >= 1,
    ;
    assert(beside * one_wad() <= (beside * one_wad()) * high) by (nonlinear_arith)
        requires
            beside >= 0,
            high >= 1,
    ;
    ceil_facts(beside, one_wad(), high, beside * one_wad());
    ceil_facts(far, one_wad(), high, far * one_wad());
    let least = ceil_mul_div(beside, one_wad(), high)->0;
    let most = ceil_mul_div(far, one_wad(), high)->0;
    assert(least - 1 < most) by (nonlinear_arith)
        requires
            (least - 1) * high < beside * one_wad(),
            beside <= far,
            far * one_wad() <= most * high,
            high > 0,
    ;
}

/// With a larger excess of value the split leaves no less.
proof fn larger_excess_splits(t: Terms, u: Terms)
    requires
        sized_terms(t),
        sized_terms(u),
        u == (Terms { tc: u.tc, ..t }),
        t.value - t.target() <= u.value - u.target(),
        splits(t),
        first_split(u) matches Some((b, x, plan)) ==> matched_split(u, x, plan) is Some,
    ensures
        splits(u),
{
    first_split_facts(t);
    first_split_facts(u);
    larger_first_split(t, u);
    let (b, x, plan) = first_split(t)->0;
    let (c, z, rest) = first_split(u)->0;
    if t.volatile_up != 0 && t.stable_up != 0 && t.volatile != 0 && t.stable != 0 {
        let m = matched_worth(t, x, plan);
        let n = matched_worth(u, z, rest);
        after_fee_grows(x, z, t.fee);
        fee_facts(x, t.fee);
        fee_facts(z, t.fee);
        let a = x - fee_on(x, t.fee);
        let d = z - fee_on(z, t.fee);
        worth_grows(t, a, d);
        worth_facts(t, d);
        assert(bought(u, z) == to_volatile(t.vol0, d, t.price));
        assert(bought(t, x) == to_volatile(t.vol0, a, t.price));
        kept_grows(t, bought(t, x), bought(u, z), d);
        let (low, high) = ratio_bounds(t);
        assert(ratio_bounds(u) == (low, high));
        let least = ceil_mul_div(floor_mul_div(bought(t, x), low, one_wad()), one_wad(), high)->0;
        let most = ceil_mul_div(floor_mul_div(bought(u, z), low, one_wad()), one_wad(), high)->0;
        value_grows(t, sat_sub(least, 10), sat_sub(most, 10), d);
        assert(m <= n);
    } else {
        reveal(matched_split);
    }
}

/// Where a loan is taken for a target, one is taken for every lower target too; and for a
/// vault without debt, for every target.
pub proof fn lower_target_borrows_too(v: VaultView, p: PoolView, tc: int, lower: int, fee: int)
    requires
        amounts_in_bounds(v, p),
        1_000_000_000_000_000_000 < tc < p100(),
        1_000_000_000_000_000_000 < lower < p100(),
        lower <= tc || v.debt == 0,
        0 <= fee <= 500_000,
        debt_rebalanced(v, p, tc, fee) is Some,
        debt_rebalanced(v, p, lower, fee) is Some,
        (debt_rebalanced(v, p, tc, fee)->0).0.debt > v.debt,
    ensures
        (debt_rebalanced(v, p, lower, fee)->0).0.debt > v.debt,
{
    reveal(debt_plan);
    terms_facts(v, p, tc, fee);
    terms_facts(v, p, lower, fee);
    loan_meets_target(v, p, tc, fee);
    let t = plan_terms(v, p, None, tc, fee)->0;
    let u = plan_terms(v, p, None, lower, fee)->0;
    assert(u == (Terms { tc: lower, ..t })) by {
        reveal(plan_terms);
    }
    assert(lower * v.debt <= tc * v.debt) by (nonlinear_arith)
        requires
            lower <= tc || v.debt == 0,
            v.debt >= 0,
    ;
    assert(t.value > t.target() && u.target() <= t.target());
    let plan = debt_plan(v, p, None, tc, fee)->0;
    let other = debt_plan(v, p, None, lower, fee)->0;
    borrowing_is_right(t);
    borrowing_is_right(u);
    loan_needs_split(t);
    loan_needs_split(u);
    first_split_facts(t);
    first_split_facts(u);
    if (first_split(u)->0).0 == 0 {
        assert(false) by {
            larger_first_split(t, u);
        }
    }
    assert(matched_split(u, (first_split(u)->0).1, (first_split(u)->0).2) is Some) by {
        reveal(borrowing);
    }
    larger_excess_splits(t, u);
    levering_adds_loan(v, p, other.amount, other.swap_fee);
}

// ── carrying out a plan ──

/// A stable amount is split like the holdings: the stable part of it is to the whole as the
/// stable holdings are to the value, rounded down twice, and the rest is exchanged at the
/// price. Without holdings all of it stays as it is.
pub proof fn loan_is_split_like_holdings(v: VaultView, p: PoolView, net: int)
    requires
        amounts_in_bounds(v, p),
        0 <= net < p76(),
    ensures
        loan_split(v, p, net) matches Some((d0, d1)) && {
            let (t0, t1) = totals(v, p, false)->0;
            let stable = if v.vol0() {
                t1
            } else {
                t0
            };
            let total = gross_value(v, p, None)->0;
            let (dv, ds) = if v.vol0() {
                (d0, d1)
            } else {
                (d1, d0)
            };
            &&& total == 0 ==> ds == net && dv == 0
            &&& total > 0 ==> {
                &&& 0 <= ds <= net
                &&& ds * total <= net * stable
                &&& net * stable * 1_000_000_000_000_000_000 < ((ds + 1) * 1_000_000_000_000_000_000
                    + net) * total
                &&& dv == to_volatile(v.vol0(), net - ds, price_of(p.price))
            }
        },
{
    reveal(loan_split);
    let (t0, t1) = totals(v, p, false)->0;
    let (volatile, stable) = by_role(v.vol0(), t0, t1);
    let worth = to_stable(v.vol0(), volatile, price_of(p.price));
    let total = gross_value(v, p, None)->0;
    let one = one_wad();
    if total > 0 {
        price_is_bounded(p.price);
        worth_is_bounded(v.vol0(), volatile, price_of(p.price));
        small(stable + worth);
        assert(stable * one < (one + 1) * total) by (nonlinear_arith)
            requires
                0 <= stable <= total,
                total > 0,
                one == one_wad(),
        ;
        floor_facts(stable, one, total, one + 1);
        let k = floor_mul_div(stable, one, total);
        assert(0 <= net * k && net * k <= net * one && net * one < (net + 1) * one)
            by (nonlinear_arith)
            requires
                0 <= net,
                0 <= k <= one,
                one == one_wad(),
        ;
        floor_facts(net, k, one, net + 1);
        let ds = floor_mul_div(net, k, one);
        assert(ds * total <= net * stable) by (nonlinear_arith)
            requires
                ds * one <= net * k,
                k * total <= stable * one,
                0 <= net,
                total > 0,
                one == one_wad(),
        ;
        assert(net * stable * one < ((ds + 1) * one + net) * total) by (nonlinear_arith)
            requires
                net * k < (ds + 1) * one,
                stable * one < (k + 1) * total,
                0 <= net,
                total > 0,
        ;
    }
}

/// What a volatile amount in bounds is worth stays far below 256 bits.
proof fn worth_is_bounded(vol0: bool, amount: int, price: int)
    requires
        0 <= amount < p76(),
        0 <= price < p124(),
    ensures
        0 <= to_stable(vol0, amount, price) < p156(),
{
    assert(0 <= amount * price < p156() * one_wad()) by (nonlinear_arith)
        requires
            0 <= amount < p76(),
            0 <= price < p124(),
    ;
    floor_facts(amount, price, one_wad(), p156());
    if price > 0 {
        assert(amount * one_wad() < p156() * price) by (nonlinear_arith)
            requires
                0 <= amount < p76(),
                price >= 1,
        ;
        floor_facts(amount, one_wad(), price, p156());
    }
}

/// A loan goes into the vault less its fee. Without shares to take it in, it is idle as it
/// was split.
pub proof fn loan_goes_in_less_its_fee(v: VaultView, p: PoolView, loan: int, fee: int)
    requires
        v.supply == 0,
        totals(v, p, true) is Some,
        0 <= fee <= loan,
    ensures
        levered(v, p, loan, fee) matches Some((w, q)) ==> (loan_split(v, p, loan - fee) matches Some(
            (d0, d1),
        ) && {
            &&& w.debt == wadd(v.debt, loan)
            &&& 0 <= d0 ==> w.idle0 == wadd(v.idle0, d0)
            &&& 0 <= d1 ==> w.idle1 == wadd(v.idle1, d1)
            &&& q == p
            &&& w == (VaultView { debt: w.debt, idle0: w.idle0, idle1: w.idle1, ..v })
        }),
{
    reveal(levered);
    reveal(pro_rata_deposited);
}

/// What is repaid follows what came out: the amount planned, and more or less by what the
/// proceeds in either token differ from those planned, at the price.
pub proof fn repayment_follows_proceeds(
    plan: PlanView,
    vol0: bool,
    volatile: int,
    stable: int,
    price: int,
)
    requires
        0 <= plan.amount < p76(),
        0 <= stable < p76(),
        0 <= plan.stable < p76(),
        volatile >= plan.volatile ==> 0 <= to_stable(vol0, volatile - plan.volatile, price) < p76(),
        volatile <= plan.volatile ==> 0 <= to_stable(vol0, plan.volatile - volatile, price) < p76(),
    ensures
        ({
            let more = if volatile >= plan.volatile {
                to_stable(vol0, volatile - plan.volatile, price)
            } else {
                -to_stable(vol0, plan.volatile - volatile, price)
            };
            let first = plan.amount + (if volatile == plan.volatile {
                0
            } else {
                more
            });
            let r = repaid(plan, vol0, volatile, stable, price);
            &&& first >= 0 && first + stable - plan.stable >= 0 ==> r == first + stable
                - plan.stable
            &&& first < 0 && stable >= plan.stable ==> r == stable - plan.stable
            &&& first >= 0 && first + stable - plan.stable < 0 ==> r == 0
        }),
{
    if volatile > plan.volatile {
        let m = to_stable(vol0, volatile - plan.volatile, price);
        small(plan.amount + m);
        if stable > plan.stable {
            small(plan.amount + m + (stable - plan.stable));
        }
    } else if plan.volatile > volatile {
        let f = sat_sub(plan.amount, to_stable(vol0, plan.volatile - volatile, price));
        if stable > plan.stable {
            small(f + (stable - plan.stable));
        }
    } else if stable > plan.stable {
        small(plan.amount + (stable - plan.stable));
    }
}

} // verus!
