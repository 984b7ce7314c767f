//! What holds of every swap: where it ends, what it takes, and the liquidity that is
//! active after it. Also what holds of adding and removing liquidity.
use crate::arith::{p128, p255, p256, signed_sum, wrap, wrap_signed, wrap_signed_facts};
use crate::pool_model::{
    boundary_ticks, burned, clamp_tick, fee_ok, limit_ok, minted, modified, pool_valid,
    position_amounts, rapid_burned, rapid_minted, step_target, swap_amounts, swap_end, swap_landed,
    swap_limit, swap_moved, swap_next, swap_over, swap_run, swap_start, swapped, tick_matches,
    tick_of, ticks_ahead, valid_range, without_emptied, PoolView, SwapState,
};
use crate::position::{fees_earned, updated_position, PositionView};
use crate::position_manager::{position_at, position_key};
use crate::sqrt_price_math::{amount0_delta, amount1_delta};
use crate::swap_laws::{rounding_gap, swap_step_bounds, valid_price};
use crate::swap_math::{swap_step, StepView};
use crate::tick::{crossed_tick, TickView};
use crate::tick_manager::{growths_inside, next_tick, next_tick_facts, tick_at};
use crate::tick_math::{ratio_at, ratio_ends, ratio_increases, ratio_mono};
use crate::types::{max_ratio, min_ratio, MAX_TICK, MIN_TICK};
use vstd::prelude::*;

verus! {

/// The state of a swap under way is in order: the price lies between the limit and
/// the start of the swap and agrees with the tick.
pub open spec fn state_ok(v: PoolView, zero_for_one: bool, exact_in: bool, limit: int, s: SwapState) -> bool {
    &&& tick_matches(s.tick, s.price)
    &&& s.price >= min_ratio()
    &&& 0 <= s.liquidity < p128()
    &&& zero_for_one ==> min_ratio() < limit <= s.price
    &&& !zero_for_one ==> s.price <= limit < max_ratio()
    &&& exact_in ==> 0 <= s.remaining < p255()
    &&& !exact_in ==> -p255() <= s.remaining <= 0
    &&& s.ticks.dom() == v.ticks.dom()
    &&& ticks_kept(v.ticks, s.ticks, zero_for_one, s.tick)
}

/// The ticks ahead are as they were, and those behind have the liquidity that they had.
#[verifier::opaque]
pub open spec fn ticks_kept(
    m: Map<int, TickView>,
    n: Map<int, TickView>,
    zero_for_one: bool,
    tick: int,
) -> bool {
    &&& forall|k: int|
        #[trigger] m.dom().contains(k) && (if zero_for_one {
            k <= tick
        } else {
            k > tick
        }) ==> n[k] == m[k]
    &&& forall|k: int|
        #[trigger] m.dom().contains(k) ==> n[k].net == m[k].net && n[k].gross == m[k].gross
}

/// Going on keeps the ticks, and so does crossing one of them.
proof fn passing_keeps_ticks(
    m: Map<int, TickView>,
    n: Map<int, TickView>,
    zero_for_one: bool,
    tick: int,
    next: int,
    growth0: int,
    growth1: int,
    to: int,
)
    requires
        ticks_kept(m, n, zero_for_one, tick),
        n.dom() == m.dom(),
        zero_for_one ==> to <= tick,
        !zero_for_one ==> to >= tick,
    ensures
        ticks_kept(m, n, zero_for_one, to),
        m.dom().contains(next) && (if zero_for_one {
            to < next
        } else {
            to >= next
        }) ==> ticks_kept(
            m,
            n.insert(next, crossed_tick(tick_at(n, next), growth0, growth1)),
            zero_for_one,
            to,
        ),
{
    reveal(ticks_kept);
}

/// The price of the next tick is on the far side of the current price.
pub proof fn next_tick_ahead(v: PoolView, zero_for_one: bool, exact_in: bool, limit: int, s: SwapState, next: int)
    requires
        state_ok(v, zero_for_one, exact_in, limit, s),
        MIN_TICK <= next <= MAX_TICK,
        zero_for_one ==> next <= s.tick,
        !zero_for_one ==> next > s.tick,
    ensures
        valid_price(ratio_at(next)),
        valid_price(s.price),
        valid_price(step_target(zero_for_one, ratio_at(next), limit)),
        zero_for_one ==> ratio_at(next) <= s.price && step_target(
            zero_for_one,
            ratio_at(next),
            limit,
        ) <= s.price,
        !zero_for_one ==> ratio_at(next) >= s.price && step_target(
            zero_for_one,
            ratio_at(next),
            limit,
        ) >= s.price,
{
    ratio_ends();
    ratio_mono(MIN_TICK as int, next);
    ratio_mono(next, MAX_TICK as int);
    if zero_for_one {
        ratio_mono(next, s.tick);
    } else {
        ratio_mono(s.tick + 1, next);
    }
}

/// What booking a step's amounts keeps.
pub proof fn booking_keeps(s: SwapState, step: StepView, exact_in: bool)
    requires
        exact_in ==> 0 < s.remaining < p255() && 0 <= step.amount_in + step.fee <= s.remaining,
        !exact_in ==> -p255() <= s.remaining < 0 && 0 <= step.amount_out <= -s.remaining,
    ensures
        ({
            let m = swap_moved(s, step, exact_in);
            &&& m.price == step.next
            &&& m.tick == s.tick
            &&& m.liquidity == s.liquidity
            &&& m.ticks == s.ticks
            &&& exact_in ==> m.remaining == s.remaining - (step.amount_in + step.fee)
            &&& !exact_in ==> m.remaining == s.remaining + step.amount_out
        }),
{
    reveal(swap_moved);
    wrap_signed_facts(s.remaining - (step.amount_in + step.fee));
    wrap_signed_facts(s.remaining + step.amount_out);
}

/// What bringing the tick up to date keeps.
pub proof fn landing_keeps(
    v: PoolView,
    zero_for_one: bool,
    exact_in: bool,
    limit: int,
    s: SwapState,
    m: SwapState,
    next: int,
    init: bool,
    n: SwapState,
)
    requires
        state_ok(v, zero_for_one, exact_in, limit, s),
        m.tick == s.tick,
        m.liquidity == s.liquidity,
        m.ticks == s.ticks,
        exact_in ==> 0 <= m.remaining < p255(),
        !exact_in ==> -p255() <= m.remaining <= 0,
        MIN_TICK <= next <= MAX_TICK,
        zero_for_one ==> next <= s.tick && limit <= m.price <= s.price && ratio_at(next) <= m.price,
        !zero_for_one ==> next > s.tick && s.price <= m.price <= limit && m.price <= ratio_at(next),
        init ==> v.ticks.dom().contains(next),
        m.price != ratio_at(next) ==> m.remaining == 0 || m.price == limit,
        swap_landed(v, zero_for_one, s.price, m, next, init) == Some(n),
    ensures
        state_ok(v, zero_for_one, exact_in, limit, n),
        swap_over(n, limit) || ticks_ahead(zero_for_one, n) < ticks_ahead(zero_for_one, s),
        ticks_ahead(zero_for_one, n) <= ticks_ahead(zero_for_one, s),
        n.price == m.price,
        n.remaining == m.remaining,
{
    reveal(swap_landed);
    ratio_ends();
    let growth0 = if zero_for_one {
        m.growth
    } else {
        v.growth0
    };
    let growth1 = if zero_for_one {
        v.growth1
    } else {
        m.growth
    };
    if m.price == ratio_at(next) {
        passing_keeps_ticks(
            v.ticks,
            s.ticks,
            zero_for_one,
            s.tick,
            next,
            growth0,
            growth1,
            n.tick,
        );
        if zero_for_one {
            if next == MIN_TICK {
                assert(false);
            }
            ratio_mono(next - 1, next);
        } else {
            if next == MAX_TICK {
                assert(false);
            }
            ratio_mono(next, next + 1);
        }
        assert(tick_matches(n.tick, n.price));
        assert(n.ticks.dom() =~= v.ticks.dom());
    } else if m.price != s.price {
        tick_of_exists(m.price);
        // the tick only moves in the direction of the swap
        if zero_for_one {
            if n.tick > s.tick {
                ratio_mono(s.tick + 1, n.tick);
                ratio_increases_to(s.tick + 1, n.tick, m.price);
            }
        } else {
            if n.tick < s.tick {
                ratio_mono(n.tick + 1, s.tick);
            }
        }
        passing_keeps_ticks(
            v.ticks,
            s.ticks,
            zero_for_one,
            s.tick,
            next,
            growth0,
            growth1,
            n.tick,
        );
    }
}

/// A price at or above that of a higher tick can only be the price of that tick.
proof fn ratio_increases_to(s: int, t: int, price: int)
    requires
        MIN_TICK <= s <= t <= MAX_TICK,
        ratio_at(t) <= price <= ratio_at(s),
    ensures
        s == t,
{
    if s < t {
        ratio_increases(s, t);
    }
}

/// A step keeps the state in order, and a swap that it does not end gets nearer to
/// the end of the tick range.
pub proof fn step_keeps(v: PoolView, zero_for_one: bool, exact_in: bool, limit: int, s: SwapState, n: SwapState)
    requires
        pool_valid(v),
        fee_ok(v.fee),
        state_ok(v, zero_for_one, exact_in, limit, s),
        !swap_over(s, limit),
        swap_next(v, zero_for_one, exact_in, limit, s) == Some(n),
    ensures
        state_ok(v, zero_for_one, exact_in, limit, n),
        swap_over(n, limit) || ticks_ahead(zero_for_one, n) < ticks_ahead(zero_for_one, s),
        ticks_ahead(zero_for_one, n) <= ticks_ahead(zero_for_one, s),
        zero_for_one ==> n.price <= s.price,
        !zero_for_one ==> n.price >= s.price,
        exact_in ==> n.remaining <= s.remaining,
        !exact_in ==> n.remaining >= s.remaining,
{
    reveal(swap_next);
    let (raw, init) = next_tick(s.ticks, s.tick, v.spacing, zero_for_one);
    next_tick_facts(s.ticks, s.tick, v.spacing, zero_for_one);
    let next = clamp_tick(raw);
    let np = ratio_at(next);
    next_tick_ahead(v, zero_for_one, exact_in, limit, s, next);
    let target = step_target(zero_for_one, np, limit);
    swap_step_bounds(s.price, target, s.liquidity, s.remaining, v.fee);
    let step = swap_step(s.price, target, s.liquidity, s.remaining, v.fee)->0;
    booking_keeps(s, step, exact_in);
    landing_keeps(
        v,
        zero_for_one,
        exact_in,
        limit,
        s,
        swap_moved(s, step, exact_in),
        next,
        init,
        n,
    );
}

/// Every price in range has a tick.
pub proof fn tick_of_exists(price: int)
    requires
        min_ratio() <= price < max_ratio(),
    ensures
        MIN_TICK <= tick_of(price) < MAX_TICK,
        ratio_at(tick_of(price)) <= price < ratio_at(tick_of(price) + 1),
{
    ratio_ends();
    tick_search(price, MIN_TICK as int);
}

/// From a tick at or below the price upward there is one that brackets it.
proof fn tick_search(price: int, t: int)
    requires
        min_ratio() <= price < max_ratio(),
        MIN_TICK <= t < MAX_TICK,
        ratio_at(t) <= price,
    ensures
        MIN_TICK <= tick_of(price) < MAX_TICK,
        ratio_at(tick_of(price)) <= price < ratio_at(tick_of(price) + 1),
    decreases MAX_TICK - t,
{
    if price < ratio_at(t + 1) {
        assert(MIN_TICK <= t < MAX_TICK && ratio_at(t) <= price && price < ratio_at(t + 1));
    } else {
        ratio_ends();
        tick_search(price, t + 1);
    }
}

proof fn run_keeps(v: PoolView, zero_for_one: bool, exact_in: bool, limit: int, s: SwapState)
    requires
        pool_valid(v),
        fee_ok(v.fee),
        state_ok(v, zero_for_one, exact_in, limit, s),
        swap_run(v, zero_for_one, exact_in, limit, s) is Some,
    ensures
        ({
            let n = swap_run(v, zero_for_one, exact_in, limit, s)->0;
            &&& state_ok(v, zero_for_one, exact_in, limit, n)
            &&& swap_over(n, limit)
            &&& zero_for_one ==> n.price <= s.price
            &&& !zero_for_one ==> n.price >= s.price
            &&& exact_in ==> n.remaining <= s.remaining
            &&& !exact_in ==> n.remaining >= s.remaining
        }),
    decreases ticks_ahead(zero_for_one, s),
{
    if !swap_over(s, limit) {
        let n = swap_next(v, zero_for_one, exact_in, limit, s)->0;
        step_keeps(v, zero_for_one, exact_in, limit, s, n);
        if !swap_over(n, limit) {
            run_keeps(v, zero_for_one, exact_in, limit, n);
        }
    }
}

/// A swap in a pool in order starts in order.
proof fn start_ok(v: PoolView, zero_for_one: bool, amount: int, limit: int)
    requires
        pool_valid(v),
        v.price != 0,
        limit_ok(v, zero_for_one, limit),
        -p255() <= amount < p255(),
    ensures
        state_ok(v, zero_for_one, amount >= 0, limit, swap_start(v, zero_for_one, amount)),
{
    ratio_ends();
    ratio_mono(MIN_TICK as int, v.tick);
    reveal(ticks_kept);
}

/// A swap ends between the price it started from and its limit, and either reaches the
/// limit or uses up the amount. It never takes more than the amount that goes in, and
/// never gives more than the amount that is asked for. The pool stays in order.
pub proof fn swap_within_bounds(v: PoolView, zero_for_one: bool, amount: int, limit: Option<int>)
    requires
        pool_valid(v),
        v.price != 0,
        -p255() <= amount < p255(),
        swap_end(v, zero_for_one, amount, limit) is Some,
    ensures
        ({
            let s = swap_end(v, zero_for_one, amount, limit)->0;
            let l = swap_limit(zero_for_one, limit);
            &&& zero_for_one ==> l <= s.price <= v.price
            &&& !zero_for_one ==> v.price <= s.price <= l
            &&& s.price == l || s.remaining == 0
            &&& amount >= 0 ==> 0 <= s.remaining <= amount
            &&& amount < 0 ==> amount <= s.remaining <= 0
            &&& pool_valid(swapped(v, zero_for_one, s))
        }),
{
    reveal(swap_end);
    let l = swap_limit(zero_for_one, limit);
    start_ok(v, zero_for_one, amount, l);
    run_keeps(v, zero_for_one, amount >= 0, l, swap_start(v, zero_for_one, amount));
}

/// What a swap takes of the token that its amount is given in: a part of the amount.
pub proof fn swap_uses_part(v: PoolView, zero_for_one: bool, amount: int, limit: Option<int>)
    requires
        pool_valid(v),
        v.price != 0,
        -p255() <= amount < p255(),
        swap_end(v, zero_for_one, amount, limit) is Some,
    ensures
        ({
            let s = swap_end(v, zero_for_one, amount, limit)->0;
            let (a0, a1) = swap_amounts(zero_for_one, amount, s);
            let used = if zero_for_one == (amount >= 0) {
                a0
            } else {
                a1
            };
            &&& amount >= 0 ==> 0 <= used <= amount
            &&& amount < 0 ==> amount <= used <= 0
        }),
{
    swap_within_bounds(v, zero_for_one, amount, limit);
    let s = swap_end(v, zero_for_one, amount, limit)->0;
    wrap_signed_facts(amount - s.remaining);
}

// ── the active liquidity ──

/// The sum of the liquidity changes at all ticks up to `t`.
pub open spec fn net_up_to(m: Map<int, TickView>, t: int) -> int
    decreases t - MIN_TICK + 1,
{
    if t < MIN_TICK {
        0
    } else {
        net_up_to(m, t - 1) + tick_at(m, t).net
    }
}

/// The active liquidity is the sum of the changes at the ticks that the price has passed.
pub open spec fn liquidity_adds_up(v: PoolView) -> bool {
    v.liquidity == net_up_to(v.ticks, v.tick)
}

/// No change at a tick is the one number that has no opposite.
pub open spec fn nets_in_range(m: Map<int, TickView>) -> bool {
    forall|k: int| #[trigger] m.dom().contains(k) ==> -p255() < m[k].net < p255()
}

proof fn net_over_gap(m: Map<int, TickView>, a: int, b: int)
    requires
        MIN_TICK - 1 <= a <= b,
        forall|k: int| a < k <= b ==> !#[trigger] m.dom().contains(k),
    ensures
        net_up_to(m, a) == net_up_to(m, b),
    decreases b - a,
{
    if a < b {
        net_over_gap(m, a, b - 1);
        assert(!m.dom().contains(b));
    }
}

proof fn net_of_same(m: Map<int, TickView>, n: Map<int, TickView>, t: int)
    requires
        m.dom() == n.dom(),
        forall|k: int| #[trigger] m.dom().contains(k) ==> m[k].net == n[k].net,
    ensures
        net_up_to(m, t) == net_up_to(n, t),
    decreases t - MIN_TICK + 1,
{
    if t >= MIN_TICK {
        net_of_same(m, n, t - 1);
        if m.dom().contains(t) {
            assert(m[t].net == n[t].net);
        }
    }
}

proof fn net_of_change(m: Map<int, TickView>, n: Map<int, TickView>, k: int, t: int)
    requires
        k >= MIN_TICK,
        forall|j: int| j != k ==> #[trigger] tick_at(m, j).net == tick_at(n, j).net,
    ensures
        net_up_to(n, t) == net_up_to(m, t) + (if k <= t {
            tick_at(n, k).net - tick_at(m, k).net
        } else {
            0
        }),
    decreases t - MIN_TICK + 1,
{
    if t >= MIN_TICK {
        net_of_change(m, n, k, t - 1);
        if t != k {
            assert(tick_at(m, t).net == tick_at(n, t).net);
        }
    }
}

proof fn step_adds_up(v: PoolView, zero_for_one: bool, exact_in: bool, limit: int, s: SwapState, n: SwapState)
    requires
        pool_valid(v),
        fee_ok(v.fee),
        nets_in_range(v.ticks),
        state_ok(v, zero_for_one, exact_in, limit, s),
        !swap_over(s, limit),
        swap_next(v, zero_for_one, exact_in, limit, s) == Some(n),
        s.liquidity == net_up_to(s.ticks, s.tick),
    ensures
        n.liquidity == net_up_to(n.ticks, n.tick),
{
    reveal(swap_next);
    let (raw, init) = next_tick(s.ticks, s.tick, v.spacing, zero_for_one);
    next_tick_facts(s.ticks, s.tick, v.spacing, zero_for_one);
    let next = clamp_tick(raw);
    let np = ratio_at(next);
    next_tick_ahead(v, zero_for_one, exact_in, limit, s, next);
    let target = step_target(zero_for_one, np, limit);
    swap_step_bounds(s.price, target, s.liquidity, s.remaining, v.fee);
    let step = swap_step(s.price, target, s.liquidity, s.remaining, v.fee)->0;
    booking_keeps(s, step, exact_in);
    let m = swap_moved(s, step, exact_in);
    landing_keeps(v, zero_for_one, exact_in, limit, s, m, next, init, n);
    reveal(swap_landed);
    assert(init ==> next == raw);
    assert(!s.ticks.dom().contains(next) ==> tick_at(s.ticks, next).net == 0);
    assert(!init ==> !s.ticks.dom().contains(next));
    if m.price == np {
        if zero_for_one {
            net_over_gap(s.ticks, next, s.tick);
        } else {
            net_over_gap(s.ticks, s.tick, next - 1);
        }
        if init {
            let net = s.ticks[next].net;
            assert(v.ticks.dom().contains(next));
            assert(net == v.ticks[next].net) by {
                reveal(ticks_kept);
            }
            wrap_signed_facts(-net);
            assert(n.ticks.dom() =~= s.ticks.dom());
            net_of_same(s.ticks, n.ticks, n.tick);
        }
        assert(net_up_to(s.ticks, next) == net_up_to(s.ticks, next - 1) + tick_at(
            s.ticks,
            next,
        ).net);
    } else if m.price != s.price {
        tick_of_exists(m.price);
        if zero_for_one {
            if n.tick < next {
                ratio_mono(n.tick + 1, next);
            }
            net_over_gap(s.ticks, n.tick, s.tick);
        } else {
            if n.tick >= next {
                ratio_mono(next, n.tick);
            }
            net_over_gap(s.ticks, s.tick, n.tick);
        }
    }
}

proof fn run_adds_up(v: PoolView, zero_for_one: bool, exact_in: bool, limit: int, s: SwapState)
    requires
        pool_valid(v),
        fee_ok(v.fee),
        nets_in_range(v.ticks),
        state_ok(v, zero_for_one, exact_in, limit, s),
        s.liquidity == net_up_to(s.ticks, s.tick),
        swap_run(v, zero_for_one, exact_in, limit, s) is Some,
    ensures
        ({
            let n = swap_run(v, zero_for_one, exact_in, limit, s)->0;
            n.liquidity == net_up_to(n.ticks, n.tick)
        }),
    decreases ticks_ahead(zero_for_one, s),
{
    if !swap_over(s, limit) {
        let n = swap_next(v, zero_for_one, exact_in, limit, s)->0;
        step_keeps(v, zero_for_one, exact_in, limit, s, n);
        step_adds_up(v, zero_for_one, exact_in, limit, s, n);
        if !swap_over(n, limit) {
            run_adds_up(v, zero_for_one, exact_in, limit, n);
        }
    }
}

/// A swap keeps the active liquidity the sum of the changes at the ticks that the price
/// has passed, however many ticks it crosses.
pub proof fn swap_keeps_liquidity(v: PoolView, zero_for_one: bool, amount: int, limit: Option<int>)
    requires
        pool_valid(v),
        v.price != 0,
        -p255() <= amount < p255(),
        nets_in_range(v.ticks),
        liquidity_adds_up(v),
        swap_end(v, zero_for_one, amount, limit) is Some,
    ensures
        liquidity_adds_up(swapped(v, zero_for_one, swap_end(v, zero_for_one, amount, limit)->0)),
{
    reveal(swap_end);
    let l = swap_limit(zero_for_one, limit);
    start_ok(v, zero_for_one, amount, l);
    run_adds_up(v, zero_for_one, amount >= 0, l, swap_start(v, zero_for_one, amount));
}

/// A swap leaves the liquidity of every tick as it is.
pub proof fn swap_keeps_sizes(v: PoolView, zero_for_one: bool, amount: int, limit: Option<int>)
    requires
        pool_valid(v),
        v.price != 0,
        -p255() <= amount < p255(),
        swap_end(v, zero_for_one, amount, limit) is Some,
    ensures
        ({
            let m = (swap_end(v, zero_for_one, amount, limit)->0).ticks;
            &&& m.dom() == v.ticks.dom()
            &&& forall|k: int|
                (#[trigger] tick_at(m, k)).gross == tick_at(v.ticks, k).gross && tick_at(m, k).net
                    == tick_at(v.ticks, k).net
        }),
{
    reveal(swap_end);
    let l = swap_limit(zero_for_one, limit);
    start_ok(v, zero_for_one, amount, l);
    run_keeps(v, zero_for_one, amount >= 0, l, swap_start(v, zero_for_one, amount));
    reveal(ticks_kept);
}

/// Adding or removing liquidity keeps the active liquidity the sum of the changes at the
/// ticks that the price has passed, unless a tick that is emptied had liquidity that
/// starts and liquidity that ends there out of balance.
pub proof fn change_keeps_liquidity(
    v: PoolView,
    owner: Seq<char>,
    lower: int,
    upper: int,
    delta: int,
)
    requires
        pool_valid(v),
        liquidity_adds_up(v),
        modified(v, owner, lower, upper, delta) is Some,
        -p255() <= tick_at(v.ticks, lower).net + delta < p255(),
        -p255() <= tick_at(v.ticks, upper).net - delta < p255(),
        tick_at(v.ticks, lower).gross + delta == 0 ==> tick_at(v.ticks, lower).net + delta == 0,
        tick_at(v.ticks, upper).gross + delta == 0 ==> tick_at(v.ticks, upper).net - delta == 0,
    ensures
        liquidity_adds_up((modified(v, owner, lower, upper, delta)->0).0),
{
    let (ticks, fl, fu) = boundary_ticks(v, lower, upper, delta)->0;
    let w = without_emptied(ticks, lower, upper, delta, fl, fu);
    if delta != 0 {
        let tl = tick_at(v.ticks, lower);
        let tu = tick_at(v.ticks, upper);
        wrap_signed_facts(tl.net + delta);
        wrap_signed_facts(tu.net - delta);
        let m1 = v.ticks.insert(lower, ticks[lower]);
        assert(ticks[lower].net == tl.net + delta);
        assert(ticks[upper].net == tu.net - delta);
        net_of_change(v.ticks, m1, lower, v.tick);
        net_of_change(m1, ticks, upper, v.tick);
        assert(tick_at(m1, upper) == tu);
        let r1 = if delta < 0 && fl {
            ticks.remove(lower)
        } else {
            ticks
        };
        net_of_change(ticks, r1, lower, v.tick);
        net_of_change(r1, w, upper, v.tick);
        assert(tick_at(r1, lower).net == tick_at(ticks, lower).net);
        assert(tick_at(w, upper).net == tick_at(r1, upper).net);
    }
}

// ── adding and removing ──

/// The amounts of adding and of removing the same liquidity at the same price.
proof fn amounts_match(v: PoolView, w: PoolView, lower: int, upper: int, l: int)
    requires
        pool_valid(v),
        v.price != 0,
        w.price == v.price,
        w.tick == v.tick,
        valid_range(lower, upper),
        0 < l < p128(),
    ensures
        position_amounts(v, lower, upper, l) is Some,
        position_amounts(w, lower, upper, -l) is Some,
        ({
            let (a0, a1) = position_amounts(v, lower, upper, l)->0;
            let (b0, b1) = position_amounts(w, lower, upper, -l)->0;
            &&& 0 <= -b0 <= a0 <= -b0 + 1
            &&& 0 <= -b1 <= a1 <= -b1 + 1
            &&& a0 < p255()
            &&& a1 < p255()
        }),
{
    ratio_ends();
    ratio_mono(MIN_TICK as int, lower);
    ratio_mono(lower, upper);
    ratio_mono(upper, MAX_TICK as int);
    ratio_mono(MIN_TICK as int, v.tick);
    let pl = ratio_at(lower);
    let pu = ratio_at(upper);
    if v.tick < lower {
        rounding_gap(pl, pu, l);
        wrap_signed_facts(amount0_delta(pl, pu, l, true)->0);
        wrap_signed_facts(-(amount0_delta(pl, pu, l, false)->0));
    } else if v.tick < upper {
        ratio_mono(v.tick + 1, upper);
        ratio_mono(lower, v.tick);
        rounding_gap(v.price, pu, l);
        rounding_gap(pl, v.price, l);
        wrap_signed_facts(amount0_delta(v.price, pu, l, true)->0);
        wrap_signed_facts(-(amount0_delta(v.price, pu, l, false)->0));
        wrap_signed_facts(amount1_delta(pl, v.price, l, true)->0);
        wrap_signed_facts(-(amount1_delta(pl, v.price, l, false)->0));
    } else {
        rounding_gap(pl, pu, l);
        wrap_signed_facts(amount1_delta(pl, pu, l, true)->0);
        wrap_signed_facts(-(amount1_delta(pl, pu, l, false)->0));
    }
}

/// Adding liquidity and removing it again restores the gross liquidity of both ticks, and
/// the fee growth inside the range is the same at both times.
proof fn ticks_there_and_back(v: PoolView, w: PoolView, lower: int, upper: int, amount: int)
    requires
        0 < amount,
        lower < upper,
        0 <= tick_at(v.ticks, lower).gross,
        0 <= tick_at(v.ticks, upper).gross,
        boundary_ticks(v, lower, upper, amount) is Some,
        w.ticks == (boundary_ticks(v, lower, upper, amount)->0).0,
        w.tick == v.tick,
        w.growth0 == v.growth0,
        w.growth1 == v.growth1,
        w.max_liquidity == v.max_liquidity,
    ensures
        boundary_ticks(w, lower, upper, -amount) is Some,
        ({
            let (ticks, fl, fu) = boundary_ticks(w, lower, upper, -amount)->0;
            &&& growths_inside(ticks, lower, upper, v.tick, v.growth0, v.growth1)
                == growths_inside(w.ticks, lower, upper, v.tick, v.growth0, v.growth1)
            &&& ticks.dom() == w.ticks.dom()
            &&& fl == (tick_at(v.ticks, lower).gross == 0)
            &&& fu == (tick_at(v.ticks, upper).gross == 0)
        }),
{
    let (ticks, fl, fu) = boundary_ticks(w, lower, upper, -amount)->0;
    assert(tick_at(w.ticks, lower).gross == tick_at(v.ticks, lower).gross + amount);
    assert(tick_at(w.ticks, upper).gross == tick_at(v.ticks, upper).gross + amount);
    assert(ticks.dom() =~= w.ticks.dom());
}

/// What a position is owed stays the same while no fees come in.
proof fn position_there_and_back(p: PositionView, amount: int, growth0: int, growth1: int)
    requires
        0 <= p.liquidity,
        0 < amount,
        updated_position(p, amount, growth0, growth1) is Some,
    ensures
        ({
            let q = updated_position(p, amount, growth0, growth1)->0;
            &&& q.liquidity == p.liquidity + amount
            &&& 0 <= q.owed0 < p256()
            &&& 0 <= q.owed1 < p256()
            &&& updated_position(q, -amount, growth0, growth1) == Some(
                PositionView { liquidity: p.liquidity, ..q },
            )
        }),
{
    let q = updated_position(p, amount, growth0, growth1)->0;
    no_new_fees(growth0, q.liquidity);
    no_new_fees(growth1, q.liquidity);
}

/// The change that takes back an addition: the amounts of both, and what is left.
proof fn removal_after_adding(v: PoolView, owner: Seq<char>, lower: int, upper: int, amount: int)
    requires
        pool_valid(v),
        v.price != 0,
        0 < amount < p128(),
        0 <= tick_at(v.ticks, lower).gross,
        0 <= tick_at(v.ticks, upper).gross,
        0 <= position_at(v.positions, position_key(owner, lower, upper)).liquidity,
        modified(v, owner, lower, upper, amount) is Some,
    ensures
        ({
            let (w, a0, a1) = modified(v, owner, lower, upper, amount)->0;
            let (x, c0, c1) = modified(w, owner, lower, upper, -amount)->0;
            let key = position_key(owner, lower, upper);
            let p = position_at(w.positions, key);
            &&& modified(w, owner, lower, upper, -amount) is Some
            &&& 0 <= -c0 <= a0 <= -c0 + 1
            &&& 0 <= -c1 <= a1 <= -c1 + 1
            &&& a0 < p255()
            &&& a1 < p255()
            &&& x.price == v.price
            &&& x.tick == v.tick
            &&& x.liquidity == v.liquidity
            &&& 0 <= p.owed0 < p256()
            &&& 0 <= p.owed1 < p256()
            &&& position_at(x.positions, key) == (PositionView {
                liquidity: position_at(v.positions, key).liquidity,
                ..p
            })
        }),
{
    let (w, a0, a1) = modified(v, owner, lower, upper, amount)->0;
    let key = position_key(owner, lower, upper);
    amounts_match(v, w, lower, upper, amount);
    ticks_there_and_back(v, w, lower, upper, amount);
    let (g0, g1) = growths_inside(w.ticks, lower, upper, v.tick, v.growth0, v.growth1);
    position_there_and_back(position_at(v.positions, key), amount, g0, g1);
}

/// Removing what was added gives back what it took, or one unit less of each token. It
/// leaves price, tick, active liquidity and the liquidity of the position as they were
/// before, and credits to the position just what it gives back.
pub proof fn mint_then_burn(v: PoolView, owner: Seq<char>, lower: int, upper: int, amount: int)
    requires
        pool_valid(v),
        v.price != 0,
        amount < p128(),
        0 <= tick_at(v.ticks, lower).gross,
        0 <= tick_at(v.ticks, upper).gross,
        0 <= position_at(v.positions, position_key(owner, lower, upper)).liquidity,
        minted(v, owner, lower, upper, amount) is Some,
    ensures
        burned((minted(v, owner, lower, upper, amount)->0).0, owner, lower, upper, amount) is Some,
        ({
            let (w, a0, a1) = minted(v, owner, lower, upper, amount)->0;
            let (x, b0, b1) = burned(w, owner, lower, upper, amount)->0;
            let key = position_key(owner, lower, upper);
            &&& 0 <= b0 <= a0 <= b0 + 1
            &&& 0 <= b1 <= a1 <= b1 + 1
            &&& x.price == v.price
            &&& x.tick == v.tick
            &&& x.liquidity == v.liquidity
            &&& position_at(x.positions, key).liquidity == position_at(v.positions, key).liquidity
            &&& position_at(x.positions, key).owed0 == wrap(
                position_at(w.positions, key).owed0 + b0,
            )
            &&& position_at(x.positions, key).owed1 == wrap(
                position_at(w.positions, key).owed1 + b1,
            )
        }),
{
    let (w, a0, a1) = minted(v, owner, lower, upper, amount)->0;
    removal_after_adding(v, owner, lower, upper, amount);
    wrap_signed_facts(-amount);
    let (x, c0, c1) = modified(w, owner, lower, upper, -amount)->0;
    wrap_signed_facts(-c0);
    wrap_signed_facts(-c1);
}

/// Without fee growth nothing is earned.
proof fn no_new_fees(growth: int, liquidity: int)
    ensures
        fees_earned(growth, growth, liquidity) == 0,
{
    assert(0 * liquidity == 0) by (nonlinear_arith);
}

/// Of what was added any part can be removed again.
pub proof fn part_can_be_burned(
    v: PoolView,
    owner: Seq<char>,
    lower: int,
    upper: int,
    amount: int,
    part: int,
)
    requires
        pool_valid(v),
        v.price != 0,
        0 < part <= amount < p128(),
        0 <= tick_at(v.ticks, lower).gross,
        0 <= tick_at(v.ticks, upper).gross,
        0 <= position_at(v.positions, position_key(owner, lower, upper)).liquidity,
        minted(v, owner, lower, upper, amount) is Some,
    ensures
        burned((minted(v, owner, lower, upper, amount)->0).0, owner, lower, upper, part) is Some,
{
    let (w, a0, a1) = minted(v, owner, lower, upper, amount)->0;
    amounts_match(v, w, lower, upper, part);
    wrap_signed_facts(-part);
    assert(tick_at(w.ticks, lower).gross == tick_at(v.ticks, lower).gross + amount);
    assert(tick_at(w.ticks, upper).gross == tick_at(v.ticks, upper).gross + amount);
    assert(boundary_ticks(w, lower, upper, -part) is Some);
}

/// A tick that is kept only while it has liquidity.
pub open spec fn kept_for_liquidity(m: Map<int, TickView>, k: int) -> bool {
    m.dom().contains(k) ==> m[k].gross > 0 && -p255() <= m[k].net < p255()
}

/// A change that is taken back leaves the number as it was.
proof fn there_and_back(n: int, delta: int)
    requires
        -p255() <= n < p255(),
    ensures
        wrap_signed(wrap_signed(n + delta) - delta) == n,
{
    signed_sum(-delta, n + delta);
    wrap_signed_facts(n);
}

/// Adding liquidity and removing it again restores the ticks.
proof fn ticks_restored(v: PoolView, w: PoolView, lower: int, upper: int, amount: int)
    requires
        0 < amount,
        lower < upper,
        kept_for_liquidity(v.ticks, lower),
        kept_for_liquidity(v.ticks, upper),
        boundary_ticks(v, lower, upper, amount) is Some,
        w.ticks == (boundary_ticks(v, lower, upper, amount)->0).0,
        w.tick == v.tick,
        w.growth0 == v.growth0,
        w.growth1 == v.growth1,
        w.max_liquidity == v.max_liquidity,
    ensures
        ({
            let (ticks, fl, fu) = boundary_ticks(w, lower, upper, -amount)->0;
            &&& boundary_ticks(w, lower, upper, -amount) is Some
            &&& without_emptied(ticks, lower, upper, -amount, fl, fu) == v.ticks
        }),
{
    ticks_there_and_back(v, w, lower, upper, amount);
    let (ticks, fl, fu) = boundary_ticks(w, lower, upper, -amount)->0;
    there_and_back(tick_at(v.ticks, lower).net, amount);
    there_and_back(tick_at(v.ticks, upper).net, -amount);
    let m = without_emptied(ticks, lower, upper, -amount, fl, fu);
    assert(v.ticks.dom().contains(lower) ==> ticks[lower] == v.ticks[lower]);
    assert(v.ticks.dom().contains(upper) ==> ticks[upper] == v.ticks[upper]);
    assert(m =~= v.ticks);
}

/// The same of liquidity that no position holds: what was added is given back, or one unit
/// less of each token, and the pool is as it was before. Ticks that were not there are gone
/// again.
pub proof fn rapid_mint_then_burn(v: PoolView, lower: int, upper: int, amount: int)
    requires
        pool_valid(v),
        v.price != 0,
        amount < p128(),
        kept_for_liquidity(v.ticks, lower),
        kept_for_liquidity(v.ticks, upper),
        rapid_minted(v, lower, upper, amount) is Some,
    ensures
        rapid_burned((rapid_minted(v, lower, upper, amount)->0).0, lower, upper, amount) is Some,
        ({
            let (w, a0, a1) = rapid_minted(v, lower, upper, amount)->0;
            let (x, b0, b1) = rapid_burned(w, lower, upper, amount)->0;
            &&& 0 <= b0 <= a0 <= b0 + 1
            &&& 0 <= b1 <= a1 <= b1 + 1
            &&& w.positions == v.positions
            &&& x == v
        }),
{
    let (w, a0, a1) = rapid_minted(v, lower, upper, amount)->0;
    amounts_match(v, w, lower, upper, amount);
    ticks_there_and_back(v, w, lower, upper, amount);
    wrap_signed_facts(-amount);
    let (b0, b1) = position_amounts(w, lower, upper, -amount)->0;
    wrap_signed_facts(-b0);
    wrap_signed_facts(-b1);
    let (x, c0, c1) = rapid_burned(w, lower, upper, amount)->0;
    ticks_restored(v, w, lower, upper, amount);
    assert(x.ticks == v.ticks);
    assert(x =~= v);
}

} // verus!
