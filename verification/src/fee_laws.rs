//! What fees a swap pays, how they are shared out, and what a position is owed.
use crate::arith::{p128, p255, p256, p96, wrap, wrap_add, wrap_signed, wrap_signed_facts};
use crate::debt_laws::{ceil_facts, floor_facts, small};
use crate::full_math::floor_mul_div;
use crate::pool_model::{
    burned, minted, modified, phantom_burned, phantom_minted, pool_collected, rapid_burned,
    rapid_minted, swap_end, swap_moved, PoolView, SwapState,
};
use crate::position::fees_earned;
use crate::position_manager::{position_at, position_key};
use crate::sqrt_price_math::{next_price_input, next_price_output};
use crate::swap_laws::{p160, swap_step_bounds, valid_price};
use crate::swap_math::{step_fee, step_price, swap_step, StepView};
use crate::tick::{empty_tick, updated_tick};
use crate::tick_manager::growth_inside;
use crate::types::{max_ratio, min_ratio};
use vstd::prelude::*;

verus! {

// ── steps ──

/// A step that reaches its target, or that gives an exact output, pays the fee's part of
/// what goes in with it, rounded up. One that spends an exact input short of its target
/// leaves all the rest as the fee.
#[verifier::rlimit(30)]
pub proof fn step_pays_its_fee(current: int, target: int, l: int, remaining: int, fee: int)
    requires
        valid_price(current),
        valid_price(target),
        0 <= l < p128(),
        -p255() <= remaining < p255(),
        remaining != 0,
        0 <= fee <= 10_000,
    ensures
        swap_step(current, target, l, remaining, fee) matches Some(s) && {
            let part = s.amount_in * fee;
            &&& s.next == target || remaining < 0 ==> s.fee * (1_000_000 - fee) >= part && (s.fee
                - 1) * (1_000_000 - fee) < part
            &&& s.next != target && remaining > 0 ==> s.fee == remaining - s.amount_in
        },
{
    swap_step_bounds(current, target, l, remaining, fee);
    reveal(swap_step);
    reveal(step_fee);
    let s = swap_step(current, target, l, remaining, fee)->0;
    assert(s.amount_in * fee <= (s.amount_in) * (1_000_000 - fee)) by (nonlinear_arith)
        requires
            0 <= s.amount_in,
            0 <= fee <= 10_000,
    ;
    ceil_facts(s.amount_in, fee, 1_000_000 - fee, s.amount_in);
}

/// A step short of its target goes as far as what remains reaches: an exact input less the
/// fee's part of it, or an exact output.
#[verifier::rlimit(30)]
pub proof fn step_goes_as_far_as_paid(current: int, target: int, l: int, remaining: int, fee: int)
    requires
        valid_price(current),
        valid_price(target),
        0 <= l < p128(),
        -p255() <= remaining < p255(),
        remaining != 0,
        0 <= fee <= 10_000,
    ensures
        swap_step(current, target, l, remaining, fee) matches Some(s) && (s.next != target ==> {
            let spent = remaining * (1_000_000 - fee) / 1_000_000;
            &&& remaining > 0 ==> next_price_input(current, l, spent, current >= target) == Some(
                s.next,
            )
            &&& remaining < 0 ==> next_price_output(current, l, -remaining, current >= target)
                == Some(s.next)
        }),
{
    swap_step_bounds(current, target, l, remaining, fee);
    reveal(swap_step);
    reveal(step_price);
    if remaining > 0 {
        assert(0 <= remaining * (1_000_000 - fee) < p256() * 1_000_000) by (nonlinear_arith)
            requires
                0 < remaining < p255(),
                0 <= fee <= 10_000,
        ;
        floor_facts(remaining, 1_000_000 - fee, 1_000_000, p256());
    }
}

/// Token 1 moves the price by `amount * 2^96 / l`: up by no more when it goes in, down by no
/// less when it comes out.
pub proof fn token1_moves_price(p: int, l: int, amount: int)
    requires
        0 < p < p160(),
        0 < l < p128(),
        0 <= amount,
        amount * p96() < p160() * l,
    ensures
        next_price_input(p, l, amount, false) matches Some(n) && (n - p) * l <= amount * p96()
            && amount * p96() < (n - p + 1) * l,
        next_price_output(p, l, amount, true) matches Some(n) ==> (p - n) * l >= amount * p96() && (p
            - n - 1) * l < amount * p96(),
{
    floor_facts(amount, p96(), l, p160());
    small(p + floor_mul_div(amount, p96(), l));
    ceil_facts(amount, p96(), l, p160());
}

/// Token 0 moves the price to `l * p / (l + amount * p)` when it goes in and to
/// `l * p / (l - amount * p)` when it comes out, with `l` scaled by 2^96, rounded up.
pub proof fn token0_moves_price(p: int, l: int, amount: int)
    requires
        0 < p < p160(),
        0 < l < p128(),
        0 < amount,
        l * p96() + amount * p < p256(),
    ensures
        ({
            let n = l * p96();
            &&& next_price_input(p, l, amount, true) matches Some(x) && x * (n + amount * p) >= n
                * p && (x - 1) * (n + amount * p) < n * p
            &&& n > amount * p && n * p <= p160() * (n - amount * p) ==> (next_price_output(
                p,
                l,
                amount,
                false,
            ) matches Some(x) && x * (n - amount * p) >= n * p && (x - 1) * (n - amount * p) < n * p)
        }),
{
    let n = l * p96();
    let m = amount * p;
    assert(m > 0) by (nonlinear_arith)
        requires
            m == amount * p,
            amount > 0,
            p > 0,
    ;
    small(n);
    assert(n * p <= p * (n + m)) by (nonlinear_arith)
        requires
            p > 0,
            m >= 0,
    ;
    ceil_facts(n, p, n + m, p);
    if n > m && n * p <= p160() * (n - m) {
        ceil_facts(n, p, n - m, p160());
    }
}

// ── shares ──

/// The fee of a step is shared out over the liquidity: what each unit of it gets, scaled by
/// 2^128, rounded down. Without liquidity nobody gets any.
pub proof fn fee_is_shared_by_liquidity(s: SwapState, step: StepView, exact_in: bool)
    requires
        0 <= s.growth,
        0 <= step.fee < p128(),
        0 <= s.liquidity < p128(),
        s.growth + step.fee * p128() < p256(),
    ensures
        ({
            let up = swap_moved(s, step, exact_in).growth - s.growth;
            &&& s.liquidity == 0 ==> up == 0
            &&& s.liquidity > 0 ==> up * s.liquidity <= step.fee * p128() && step.fee * p128() < (up
                + 1) * s.liquidity
        }),
{
    reveal(swap_moved);
    if s.liquidity > 0 {
        let n = step.fee * p128();
        assert(n < (n + 1) * s.liquidity) by (nonlinear_arith)
            requires
                0 <= n,
                s.liquidity >= 1,
        ;
        floor_facts(step.fee, p128(), s.liquidity, n + 1);
        small(s.growth + floor_mul_div(step.fee, p128(), s.liquidity));
    }
}

/// A step of an exact input takes what goes in and the fee from what remains and books what
/// comes out; one of an exact output books it the other way.
pub proof fn step_is_booked(s: SwapState, step: StepView, exact_in: bool)
    requires
        0 <= step.amount_in < p128(),
        0 <= step.amount_out < p128(),
        0 <= step.fee < p128(),
        -p255() + 3 * p128() <= s.remaining < p255() - 3 * p128(),
        -p255() + 3 * p128() <= s.calculated < p255() - 3 * p128(),
    ensures
        ({
            let n = swap_moved(s, step, exact_in);
            &&& n.price == step.next
            &&& n.liquidity == s.liquidity && n.tick == s.tick && n.ticks == s.ticks
            &&& exact_in ==> n.remaining == s.remaining - step.amount_in - step.fee && n.calculated
                == s.calculated - step.amount_out
            &&& !exact_in ==> n.remaining == s.remaining + step.amount_out && n.calculated
                == s.calculated + step.amount_in + step.fee
        }),
{
    reveal(swap_moved);
    wrap_signed_facts(s.remaining - (step.amount_in + step.fee));
    wrap_signed_facts(s.remaining + step.amount_out);
    wrap_signed_facts(s.calculated - step.amount_out);
    wrap_signed_facts(s.calculated + (step.amount_in + step.fee));
}

/// What grows while the price is in a range grows inside it by just as much; what grows
/// while it is not, not at all. All is taken modulo 2^256.
pub proof fn growth_counts_in_range_only(
    growth: int,
    more: int,
    outside_lower: int,
    outside_upper: int,
    lower: int,
    upper: int,
    current: int,
)
    requires
        lower < upper,
    ensures
        growth_inside(growth + more, outside_lower, outside_upper, lower, upper, current) == (
        if lower <= current < upper {
            wrap(growth_inside(growth, outside_lower, outside_upper, lower, upper, current) + more)
        } else {
            growth_inside(growth, outside_lower, outside_upper, lower, upper, current)
        }),
{
    let a = outside_lower;
    let b = outside_upper;
    inside_form(growth, a, b, lower, upper, current);
    inside_form(growth + more, a, b, lower, upper, current);
    if lower <= current < upper {
        wrap_add(growth - a - b, more);
    }
}

/// What grows inside a range, in one sum.
proof fn inside_form(g: int, a: int, b: int, lower: int, upper: int, current: int)
    requires
        lower < upper,
    ensures
        growth_inside(g, a, b, lower, upper, current) == wrap(
            if current < lower {
                a - b
            } else if current < upper {
                g - a - b
            } else {
                b - a
            },
        ),
{
    if current < lower {
        wrap_add(g, g - a);
        wrap_add(g - wrap(g - a), b);
        wrap_add(g - b, g - a);
        assert(g - (g - a) == a);
        assert(wrap(g - wrap(g - a)) == wrap(a));
        wrap_add(a, b);
    } else if current < upper {
        wrap_add(g - a, b);
    } else {
        wrap_add(g - a, wrap(g - b));
        wrap_add(g - a, g - b);
        assert(g - a - (g - b) == b - a);
    }
}

/// A range whose two ticks have just come into use has earned nothing yet, wherever the
/// price is.
pub proof fn fresh_range_has_earned_nothing(
    lower: int,
    upper: int,
    delta: int,
    current: int,
    growth0: int,
    growth1: int,
    max: int,
)
    requires
        lower < upper,
    ensures
        updated_tick(empty_tick(), lower, delta, current, growth0, growth1, false, max) matches Some(
            (l, fl),
        ) ==> (updated_tick(
            empty_tick(),
            upper,
            delta,
            current,
            growth0,
            growth1,
            true,
            max,
        ) matches Some((u, fu)) ==> growth_inside(
            growth0,
            l.outside0,
            u.outside0,
            lower,
            upper,
            current,
        ) == 0 && growth_inside(growth1, l.outside1, u.outside1, lower, upper, current) == 0),
{
    let b0 = if lower <= current {
        growth0
    } else {
        0
    };
    let b1 = if lower <= current {
        growth1
    } else {
        0
    };
    let c0 = if upper <= current {
        growth0
    } else {
        0
    };
    let c1 = if upper <= current {
        growth1
    } else {
        0
    };
    inside_form(growth0, b0, c0, lower, upper, current);
    inside_form(growth1, b1, c1, lower, upper, current);
    small(0);
}

// ── positions ──

/// What a position has earned is the growth inside its range since it was last told, times
/// its liquidity, over 2^128, rounded down.
pub proof fn fees_are_growth_times_liquidity(growth: int, last: int, liquidity: int)
    requires
        0 <= last <= growth < p256(),
        0 <= liquidity < p128(),
    ensures
        ({
            let r = fees_earned(growth, last, liquidity);
            &&& 0 <= r
            &&& r * p128() <= (growth - last) * liquidity
            &&& (growth - last) * liquidity < (r + 1) * p128()
        }),
{
    small(growth - last);
    assert((growth - last) * liquidity < p256() * p128()) by (nonlinear_arith)
        requires
            0 <= growth - last < p256(),
            0 <= liquidity < p128(),
    ;
    floor_facts(growth - last, liquidity, p128(), p256());
}

/// A change of a position's liquidity books what it has earned until then, at its old
/// liquidity, and starts anew from the present growth.
#[verifier::rlimit(30)]
pub proof fn change_books_what_was_earned(
    v: PoolView,
    owner: Seq<char>,
    lower: int,
    upper: int,
    delta: int,
)
    ensures
        modified(v, owner, lower, upper, delta) matches Some((q, a0, a1)) ==> ({
            let key = position_key(owner, lower, upper);
            let old = position_at(v.positions, key);
            let new = position_at(q.positions, key);
            &&& new.liquidity == old.liquidity + delta
            &&& new.owed0 == wrap(old.owed0 + fees_earned(new.last0, old.last0, old.liquidity))
            &&& new.owed1 == wrap(old.owed1 + fees_earned(new.last1, old.last1, old.liquidity))
            &&& forall|k: Seq<char>| k != key ==> position_at(q.positions, k) == position_at(
                v.positions,
                k,
            )
            &&& q.price == v.price && q.tick == v.tick && q.growth0 == v.growth0 && q.growth1
                == v.growth1
            &&& q.liquidity == v.liquidity + (if lower <= v.tick < upper {
                delta
            } else {
                0
            })
        }),
{
}

/// A collection pays what is asked for of what is owed, and no more; the rest stays owed.
/// The liquidity, the price and all other positions stay as they are.
#[verifier::rlimit(30)]
pub proof fn collection_pays_what_is_owed(
    v: PoolView,
    owner: Seq<char>,
    lower: int,
    upper: int,
    r0: int,
    r1: int,
)
    requires
        0 <= r0,
        0 <= r1,
        0 <= position_at(v.positions, position_key(owner, lower, upper)).owed0,
        0 <= position_at(v.positions, position_key(owner, lower, upper)).owed1,
    ensures
        pool_collected(v, owner, lower, upper, r0, r1) is Some == (lower < upper && -887_272
            <= lower && upper <= 887_272),
        pool_collected(v, owner, lower, upper, r0, r1) matches Some((q, a0, a1)) ==> {
            let key = position_key(owner, lower, upper);
            let old = position_at(v.positions, key);
            let new = position_at(q.positions, key);
            &&& a0 <= r0 && a0 <= old.owed0 && (a0 == r0 || a0 == old.owed0)
            &&& a1 <= r1 && a1 <= old.owed1 && (a1 == r1 || a1 == old.owed1)
            &&& new.owed0 == old.owed0 - a0
            &&& new.owed1 == old.owed1 - a1
            &&& new.liquidity == old.liquidity
            &&& forall|k: Seq<char>| k != key ==> position_at(q.positions, k) == position_at(
                v.positions,
                k,
            )
            &&& q == (PoolView { positions: q.positions, ..v })
        },
{
}

/// A burn credits the position with what its liquidity gave, beside what it had earned.
#[verifier::rlimit(30)]
pub proof fn burn_credits_what_it_gives(
    v: PoolView,
    owner: Seq<char>,
    lower: int,
    upper: int,
    amount: int,
)
    requires
        0 <= amount < p255(),
    ensures
        burned(v, owner, lower, upper, amount) matches Some((q, b0, b1)) ==> (modified(
            v,
            owner,
            lower,
            upper,
            -amount,
        ) matches Some((u, a0, a1)) && {
            let key = position_key(owner, lower, upper);
            let before = position_at(u.positions, key);
            let after = position_at(q.positions, key);
            &&& -p255() < a0 < p255() ==> b0 == -a0
            &&& -p255() < a1 < p255() ==> b1 == -a1
            &&& after.liquidity == position_at(v.positions, key).liquidity - amount
            &&& b0 >= 0 && b1 >= 0 && (b0 > 0 || b1 > 0) ==> after.owed0 == wrap(before.owed0 + b0)
                && after.owed1 == wrap(before.owed1 + b1)
            &&& b0 <= 0 && b1 <= 0 ==> after == before
            &&& q == (PoolView { positions: q.positions, ..u })
        }),
{
    wrap_signed_facts(-amount);
    change_books_what_was_earned(v, owner, lower, upper, -amount);
    if let Some((u, a0, a1)) = modified(v, owner, lower, upper, -amount) {
        wrap_signed_facts(-a0);
        wrap_signed_facts(-a1);
        let b0 = wrap_signed(-a0);
        let b1 = wrap_signed(-a1);
        if b0 >= 0 {
            small(b0);
        }
        if b1 >= 0 {
            small(b1);
        }
    }
}

/// Adding liquidity to the pool alone takes the same amounts and leaves the same pool but
/// for the positions; adding it to a position alone takes the same amounts and changes
/// nothing but the position.
#[verifier::rlimit(30)]
pub proof fn partial_mints_agree(
    v: PoolView,
    owner: Seq<char>,
    lower: int,
    upper: int,
    amount: int,
)
    ensures
        minted(v, owner, lower, upper, amount) matches Some((q, a0, a1)) ==> (rapid_minted(
            v,
            lower,
            upper,
            amount,
        ) == Some((PoolView { positions: v.positions, ..q }, a0, a1))),
        phantom_minted(v, owner, lower, upper, amount) matches Some((q, a0, a1)) ==> {
            &&& q == (PoolView { positions: q.positions, ..v })
            &&& position_at(q.positions, position_key(owner, lower, upper)).liquidity
                == position_at(v.positions, position_key(owner, lower, upper)).liquidity + amount
            &&& minted(v, owner, lower, upper, amount) matches Some((u, b0, b1)) ==> b0 == a0 && b1
                == a1
        },
        minted(v, owner, lower, upper, amount) is Some ==> amount > 0 && lower < upper,
{
}

/// Removing liquidity from the pool alone gives the same amounts and leaves the same pool but
/// for the positions; removing it from a position alone gives the same amounts and changes
/// nothing but the position.
#[verifier::rlimit(30)]
pub proof fn partial_burns_agree(
    v: PoolView,
    owner: Seq<char>,
    lower: int,
    upper: int,
    amount: int,
)
    requires
        0 <= amount < p255(),
    ensures
        burned(v, owner, lower, upper, amount) matches Some((q, a0, a1)) ==> (rapid_burned(
            v,
            lower,
            upper,
            amount,
        ) == Some((PoolView { positions: v.positions, ..q }, a0, a1))),
        phantom_burned(v, owner, lower, upper, amount) matches Some((q, a0, a1)) ==> {
            &&& q == (PoolView { positions: q.positions, ..v })
            &&& position_at(q.positions, position_key(owner, lower, upper)).liquidity
                == position_at(v.positions, position_key(owner, lower, upper)).liquidity - amount
            &&& burned(v, owner, lower, upper, amount) matches Some((u, b0, b1)) ==> b0 == a0 && b1
                == a1
        },
{
    wrap_signed_facts(-amount);
}

/// A swap without a limit is one up to the end of the prices, and swaps take place only in a
/// pool with one of the fees that there are.
pub proof fn swap_without_limit_goes_to_the_end(v: PoolView, amount: int)
    ensures
        swap_end(v, true, amount, None) == swap_end(v, true, amount, Some(min_ratio() + 1)),
        swap_end(v, false, amount, None) == swap_end(v, false, amount, Some(max_ratio() - 1)),
        swap_end(v, true, amount, None) is Some || swap_end(v, false, amount, None) is Some
            ==> v.fee == 100 || v.fee == 500 || v.fee == 3000 || v.fee == 10000,
{
    reveal(swap_end);
}

} // verus!
