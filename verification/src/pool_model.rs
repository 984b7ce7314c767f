//! The model of a concentrated-liquidity pool: what each operation does to its
//! price, liquidity, ticks and positions.
use crate::arith::{p128, wrap, wrap_signed};
use crate::full_math::floor_mul_div;
use crate::liquidity_math::liquidity_sum;
use crate::position::{updated_position, PositionView};
use crate::position_manager::{after_collect, position_at, position_key};
use crate::sqrt_price_math::{signed_amount0, signed_amount1};
use crate::swap_math::{swap_step, StepView};
use crate::tick::{crossed_tick, updated_tick, TickView};
use crate::tick_manager::{growths_inside, next_tick, tick_at};
use crate::tick_math::{ratio_at, tick_unique};
use crate::types::{max_ratio, min_ratio, MAX_TICK, MIN_TICK};
use vstd::prelude::*;

verus! {

/// A pool by its views.
#[verifier::ext_equal]
pub ghost struct PoolView {
    pub token0: Seq<char>,
    pub token1: Seq<char>,
    pub fee: int,
    pub spacing: int,
    pub max_liquidity: int,
    pub balance0: int,
    pub balance1: int,
    pub price: int,
    pub liquidity: int,
    pub tick: int,
    pub growth0: int,
    pub growth1: int,
    pub ticks: Map<int, TickView>,
    pub positions: Map<Seq<char>, PositionView>,
}

/// The current tick and the price agree: the price lies between the prices of the
/// tick and of the one above it. After a swap that ended on a boundary going down,
/// it may equal the upper one.
pub open spec fn tick_matches(tick: int, price: int) -> bool {
    &&& MIN_TICK <= tick < MAX_TICK
    &&& ratio_at(tick) <= price <= ratio_at(tick + 1)
    &&& price < max_ratio()
}

/// A pool in order: usable spacing, liquidity below 2^128, all ticks in range and,
/// once it has a price, a current tick that agrees with it.
pub open spec fn pool_valid(v: PoolView) -> bool {
    &&& 0 < v.spacing
    &&& 256 * v.spacing + MAX_TICK < i32::MAX
    &&& 0 <= v.liquidity < p128()
    &&& 0 <= v.price
    &&& forall|k: int| #[trigger] v.ticks.dom().contains(k) ==> MIN_TICK <= k <= MAX_TICK
    &&& v.price != 0 ==> tick_matches(v.tick, v.price)
}

/// Two ticks that bound a range.
pub open spec fn valid_range(lower: int, upper: int) -> bool {
    lower < upper && lower >= MIN_TICK && upper <= MAX_TICK
}

/// The tick of a price: the highest one whose price does not exceed it.
pub open spec fn tick_of(price: int) -> int {
    choose|t: int|
        MIN_TICK <= t < MAX_TICK && #[trigger] ratio_at(t) <= price && price < ratio_at(t + 1)
}

/// The signed token amounts of a liquidity change in a range.
pub open spec fn position_amounts(v: PoolView, lower: int, upper: int, delta: int) -> Option<
    (int, int),
> {
    if delta == 0 {
        Some((0, 0))
    } else if v.tick < lower {
        match signed_amount0(ratio_at(lower), ratio_at(upper), delta) {
            Some(a0) => Some((a0, 0)),
            None => None,
        }
    } else if v.tick < upper {
        match (
            signed_amount0(v.price, ratio_at(upper), delta),
            signed_amount1(ratio_at(lower), v.price, delta),
        ) {
            (Some(a0), Some(a1)) => Some((a0, a1)),
            _ => None,
        }
    } else {
        match signed_amount1(ratio_at(lower), ratio_at(upper), delta) {
            Some(a1) => Some((0, a1)),
            None => None,
        }
    }
}

/// The ticks after both ends of a range changed, and whether each was flipped.
pub open spec fn boundary_ticks(v: PoolView, lower: int, upper: int, delta: int) -> Option<
    (Map<int, TickView>, bool, bool),
> {
    if delta == 0 {
        Some((v.ticks, false, false))
    } else {
        match (
            updated_tick(
                tick_at(v.ticks, lower),
                lower,
                delta,
                v.tick,
                v.growth0,
                v.growth1,
                false,
                v.max_liquidity,
            ),
            updated_tick(
                tick_at(v.ticks, upper),
                upper,
                delta,
                v.tick,
                v.growth0,
                v.growth1,
                true,
                v.max_liquidity,
            ),
        ) {
            (Some((l, fl)), Some((u, fu))) => Some(
                (v.ticks.insert(lower, l).insert(upper, u), fl, fu),
            ),
            _ => None,
        }
    }
}

/// The ticks after those that a removal emptied are taken out.
pub open spec fn without_emptied(
    m: Map<int, TickView>,
    lower: int,
    upper: int,
    delta: int,
    flipped_lower: bool,
    flipped_upper: bool,
) -> Map<int, TickView> {
    let m = if delta < 0 && flipped_lower {
        m.remove(lower)
    } else {
        m
    };
    if delta < 0 && flipped_upper {
        m.remove(upper)
    } else {
        m
    }
}

/// The active liquidity after a change in a range.
pub open spec fn active_liquidity(v: PoolView, lower: int, upper: int, delta: int) -> Option<int> {
    if delta != 0 && lower <= v.tick < upper {
        liquidity_sum(v.liquidity, delta)
    } else {
        Some(v.liquidity)
    }
}

/// A liquidity change of a position, with its signed token amounts. Fails for a bad
/// range, a removal beyond the position's liquidity and where an amount or a
/// liquidity leaves its range.
pub open spec fn modified(v: PoolView, owner: Seq<char>, lower: int, upper: int, delta: int) -> Option<
    (PoolView, int, int),
> {
    let key = position_key(owner, lower, upper);
    let position = position_at(v.positions, key);
    if !valid_range(lower, upper) || (delta < 0 && position.liquidity < -delta) {
        None
    } else {
        match (
            boundary_ticks(v, lower, upper, delta),
            position_amounts(v, lower, upper, delta),
            active_liquidity(v, lower, upper, delta),
        ) {
            (Some((ticks, fl, fu)), Some((a0, a1)), Some(liquidity)) => {
                let (g0, g1) = growths_inside(ticks, lower, upper, v.tick, v.growth0, v.growth1);
                match updated_position(position, delta, g0, g1) {
                    Some(p) => Some(
                        (
                            PoolView {
                                ticks: without_emptied(ticks, lower, upper, delta, fl, fu),
                                positions: v.positions.insert(key, p),
                                liquidity,
                                ..v
                            },
                            a0,
                            a1,
                        ),
                    ),
                    None => None,
                }
            },
            _ => None,
        }
    }
}

/// As `modified`, but only the position changes: neither the ticks nor the active
/// liquidity do.
pub open spec fn phantom_modified(
    v: PoolView,
    owner: Seq<char>,
    lower: int,
    upper: int,
    delta: int,
) -> Option<(PoolView, int, int)> {
    let key = position_key(owner, lower, upper);
    let position = position_at(v.positions, key);
    if !valid_range(lower, upper) || (delta < 0 && position.liquidity < -delta) {
        None
    } else {
        let (g0, g1) = growths_inside(v.ticks, lower, upper, v.tick, v.growth0, v.growth1);
        match (updated_position(position, delta, g0, g1), position_amounts(v, lower, upper, delta)) {
            (Some(p), Some((a0, a1))) => Some(
                (PoolView { positions: v.positions.insert(key, p), ..v }, a0, a1),
            ),
            _ => None,
        }
    }
}

/// As `modified`, but no position changes: only the ticks and the active liquidity do.
pub open spec fn rapid_modified(v: PoolView, lower: int, upper: int, delta: int) -> Option<
    (PoolView, int, int),
> {
    if !valid_range(lower, upper) {
        None
    } else {
        match (
            boundary_ticks(v, lower, upper, delta),
            position_amounts(v, lower, upper, delta),
            active_liquidity(v, lower, upper, delta),
        ) {
            (Some((ticks, fl, fu)), Some((a0, a1)), Some(liquidity)) => Some(
                (
                    PoolView {
                        ticks: without_emptied(ticks, lower, upper, delta, fl, fu),
                        liquidity,
                        ..v
                    },
                    a0,
                    a1,
                ),
            ),
            _ => None,
        }
    }
}

/// What a removal gives, credited to the position.
pub open spec fn credited(
    r: Option<(PoolView, int, int)>,
    owner: Seq<char>,
    lower: int,
    upper: int,
) -> Option<(PoolView, int, int)> {
    match r {
        Some((v, a0, a1)) => {
            let b0 = wrap_signed(-a0);
            let b1 = wrap_signed(-a1);
            let key = position_key(owner, lower, upper);
            let p = position_at(v.positions, key);
            if b0 > 0 || b1 > 0 {
                Some(
                    (
                        PoolView {
                            positions: v.positions.insert(
                                key,
                                PositionView {
                                    owed0: wrap(p.owed0 + wrap(b0)),
                                    owed1: wrap(p.owed1 + wrap(b1)),
                                    ..p
                                },
                            ),
                            ..v
                        },
                        b0,
                        b1,
                    ),
                )
            } else {
                Some((v, b0, b1))
            }
        },
        None => None,
    }
}

/// Adding liquidity: `modified` with a positive amount.
pub open spec fn minted(v: PoolView, owner: Seq<char>, lower: int, upper: int, amount: int) -> Option<
    (PoolView, int, int),
> {
    if amount > 0 {
        modified(v, owner, lower, upper, amount)
    } else {
        None
    }
}

/// Removing liquidity: `modified` with minus the amount, the tokens credited.
pub open spec fn burned(v: PoolView, owner: Seq<char>, lower: int, upper: int, amount: int) -> Option<
    (PoolView, int, int),
> {
    credited(modified(v, owner, lower, upper, wrap_signed(-amount)), owner, lower, upper)
}

/// As `minted`, but only the position changes.
pub open spec fn phantom_minted(
    v: PoolView,
    owner: Seq<char>,
    lower: int,
    upper: int,
    amount: int,
) -> Option<(PoolView, int, int)> {
    if amount > 0 {
        phantom_modified(v, owner, lower, upper, amount)
    } else {
        None
    }
}

/// As `burned`, but only the position changes.
pub open spec fn phantom_burned(
    v: PoolView,
    owner: Seq<char>,
    lower: int,
    upper: int,
    amount: int,
) -> Option<(PoolView, int, int)> {
    credited(phantom_modified(v, owner, lower, upper, wrap_signed(-amount)), owner, lower, upper)
}

/// As `minted`, but no position changes.
pub open spec fn rapid_minted(v: PoolView, lower: int, upper: int, amount: int) -> Option<
    (PoolView, int, int),
> {
    if amount > 0 {
        rapid_modified(v, lower, upper, amount)
    } else {
        None
    }
}

/// As `burned`, but no position changes.
pub open spec fn rapid_burned(v: PoolView, lower: int, upper: int, amount: int) -> Option<
    (PoolView, int, int),
> {
    match rapid_modified(v, lower, upper, wrap_signed(-amount)) {
        Some((v, a0, a1)) => Some((v, wrap_signed(-a0), wrap_signed(-a1))),
        None => None,
    }
}

/// Collecting from a position.
pub open spec fn pool_collected(
    v: PoolView,
    owner: Seq<char>,
    lower: int,
    upper: int,
    requested0: int,
    requested1: int,
) -> Option<(PoolView, int, int)> {
    if valid_range(lower, upper) {
        let (positions, a0, a1) = after_collect(
            v.positions,
            position_key(owner, lower, upper),
            requested0,
            requested1,
        );
        Some((PoolView { positions, ..v }, a0, a1))
    } else {
        None
    }
}

/// The state of a swap under way.
#[verifier::ext_equal]
pub ghost struct SwapState {
    pub remaining: int,
    pub calculated: int,
    pub price: int,
    pub tick: int,
    pub liquidity: int,
    pub growth: int,
    pub ticks: Map<int, TickView>,
}

/// A swap is over where nothing remains or the price limit is reached.
pub open spec fn swap_over(s: SwapState, limit: int) -> bool {
    s.remaining == 0 || s.price == limit
}

/// The price that a step aims at: the next tick's, or the limit where it comes first.
pub open spec fn step_target(zero_for_one: bool, next: int, limit: int) -> int {
    if (zero_for_one && next < limit) || (!zero_for_one && next > limit) {
        limit
    } else {
        next
    }
}

pub open spec fn clamp_tick(t: int) -> int {
    if t < MIN_TICK {
        MIN_TICK as int
    } else if t > MAX_TICK {
        MAX_TICK as int
    } else {
        t
    }
}

/// The liquidity after the tick `next` is crossed.
pub open spec fn crossed_liquidity(s: SwapState, next: int, zero_for_one: bool) -> Option<int> {
    let net = tick_at(s.ticks, next).net;
    liquidity_sum(
        s.liquidity,
        if zero_for_one {
            wrap_signed(-net)
        } else {
            net
        },
    )
}

/// A swap after a step's amounts are booked: what it took and gave, the price it
/// reached and the fee shared out over the liquidity.
#[verifier::opaque]
pub open spec fn swap_moved(s: SwapState, step: StepView, exact_in: bool) -> SwapState {
    SwapState {
        remaining: wrap_signed(
            if exact_in {
                s.remaining - (step.amount_in + step.fee)
            } else {
                s.remaining + step.amount_out
            },
        ),
        calculated: wrap_signed(
            if exact_in {
                s.calculated - step.amount_out
            } else {
                s.calculated + (step.amount_in + step.fee)
            },
        ),
        price: step.next,
        growth: if s.liquidity > 0 {
            wrap(s.growth + floor_mul_div(step.fee, p128(), s.liquidity))
        } else {
            s.growth
        },
        ..s
    }
}

/// A swap that moved from the price `from`, with its tick brought up to date: where
/// it reached the price of the tick `next`, that tick is crossed if there is an entry
/// for it; elsewhere the tick is that of the price.
#[verifier::opaque]
pub open spec fn swap_landed(
    v: PoolView,
    zero_for_one: bool,
    from: int,
    s: SwapState,
    next: int,
    initialized: bool,
) -> Option<SwapState> {
    if s.price == ratio_at(next) {
        let tick = if zero_for_one {
            next - 1
        } else {
            next
        };
        if initialized {
            let growth0 = if zero_for_one {
                s.growth
            } else {
                v.growth0
            };
            let growth1 = if zero_for_one {
                v.growth1
            } else {
                s.growth
            };
            match crossed_liquidity(s, next, zero_for_one) {
                Some(liquidity) => Some(
                    SwapState {
                        tick,
                        liquidity,
                        ticks: s.ticks.insert(
                            next,
                            crossed_tick(tick_at(s.ticks, next), growth0, growth1),
                        ),
                        ..s
                    },
                ),
                None => None,
            }
        } else {
            Some(SwapState { tick, ..s })
        }
    } else if s.price != from {
        if min_ratio() <= s.price < max_ratio() {
            Some(SwapState { tick: tick_of(s.price), ..s })
        } else {
            None
        }
    } else {
        Some(s)
    }
}

/// A swap after one step: up to the next tick, the limit or the end of the amount.
#[verifier::opaque]
pub open spec fn swap_next(v: PoolView, zero_for_one: bool, exact_in: bool, limit: int, s: SwapState) -> Option<
    SwapState,
> {
    let (raw, initialized) = next_tick(s.ticks, s.tick, v.spacing, zero_for_one);
    let next = clamp_tick(raw);
    match swap_step(
        s.price,
        step_target(zero_for_one, ratio_at(next), limit),
        s.liquidity,
        s.remaining,
        v.fee,
    ) {
        None => None,
        Some(step) => swap_landed(
            v,
            zero_for_one,
            s.price,
            swap_moved(s, step, exact_in),
            next,
            initialized,
        ),
    }
}

/// How many ticks lie ahead of a swap.
pub open spec fn ticks_ahead(zero_for_one: bool, s: SwapState) -> nat {
    let d = if zero_for_one {
        s.tick - MIN_TICK
    } else {
        MAX_TICK - s.tick
    };
    if d < 0 {
        0
    } else {
        d as nat
    }
}

/// A swap carried on to its end: steps until it is over. A step that ends a swap
/// aside, every step has to get nearer to the end of the tick range.
pub open spec fn swap_run(v: PoolView, zero_for_one: bool, exact_in: bool, limit: int, s: SwapState) -> Option<
    SwapState,
>
    decreases ticks_ahead(zero_for_one, s),
{
    if swap_over(s, limit) {
        Some(s)
    } else {
        match swap_next(v, zero_for_one, exact_in, limit, s) {
            None => None,
            Some(n) => if swap_over(n, limit) {
                Some(n)
            } else if ticks_ahead(zero_for_one, n) < ticks_ahead(zero_for_one, s) {
                swap_run(v, zero_for_one, exact_in, limit, n)
            } else {
                None
            },
        }
    }
}

/// The state that a swap starts from.
pub open spec fn swap_start(v: PoolView, zero_for_one: bool, amount: int) -> SwapState {
    SwapState {
        remaining: amount,
        calculated: 0,
        price: v.price,
        tick: v.tick,
        liquidity: v.liquidity,
        growth: if zero_for_one {
            v.growth0
        } else {
            v.growth1
        },
        ticks: v.ticks,
    }
}

/// The price limit of a swap: the one given, else the end of the price range.
pub open spec fn swap_limit(zero_for_one: bool, limit: Option<int>) -> int {
    match limit {
        Some(l) => l,
        None => if zero_for_one {
            min_ratio() + 1
        } else {
            max_ratio() - 1
        },
    }
}

/// A limit lies between the current price and the end of the price range.
pub open spec fn limit_ok(v: PoolView, zero_for_one: bool, limit: int) -> bool {
    if zero_for_one {
        min_ratio() < limit < v.price
    } else {
        v.price < limit < max_ratio()
    }
}

/// The fee is one of the fee tiers.
pub open spec fn fee_ok(fee: int) -> bool {
    fee == 100 || fee == 500 || fee == 3000 || fee == 10000
}

/// The end of a swap. Fails for a limit out of place, a fee that is no fee tier and
/// where a step or a crossing fails.
#[verifier::opaque]
pub open spec fn swap_end(v: PoolView, zero_for_one: bool, amount: int, limit: Option<int>) -> Option<
    SwapState,
> {
    let l = swap_limit(zero_for_one, limit);
    if limit_ok(v, zero_for_one, l) && fee_ok(v.fee) {
        swap_run(v, zero_for_one, amount >= 0, l, swap_start(v, zero_for_one, amount))
    } else {
        None
    }
}

/// The change of each token that a finished swap gives.
pub open spec fn swap_amounts(zero_for_one: bool, amount: int, s: SwapState) -> (int, int) {
    let used = wrap_signed(amount - s.remaining);
    if zero_for_one == (amount >= 0) {
        (used, s.calculated)
    } else {
        (s.calculated, used)
    }
}

/// The pool after a swap.
pub open spec fn swapped(v: PoolView, zero_for_one: bool, s: SwapState) -> PoolView {
    PoolView {
        price: s.price,
        tick: s.tick,
        liquidity: s.liquidity,
        growth0: if zero_for_one {
            s.growth
        } else {
            v.growth0
        },
        growth1: if zero_for_one {
            v.growth1
        } else {
            s.growth
        },
        ticks: s.ticks,
        ..v
    }
}

/// The pool after it was given its first price. Fails where it has one, and for a
/// price out of range.
pub open spec fn initialised(v: PoolView, price: int) -> Option<PoolView> {
    if v.price == 0 && min_ratio() <= price < max_ratio() {
        Some(PoolView { price, tick: tick_of(price), ..v })
    } else {
        None
    }
}

/// The tick of a price is the one that brackets it.
pub proof fn tick_of_unique(price: int, t: int)
    requires
        MIN_TICK <= t < MAX_TICK,
        ratio_at(t) <= price < ratio_at(t + 1),
    ensures
        tick_of(price) == t,
{
    tick_unique(price, tick_of(price), t);
}

/// Boundary ticks of a valid range stay in range.
proof fn boundaries_in_range(v: PoolView, lower: int, upper: int, delta: int)
    requires
        pool_valid(v),
        valid_range(lower, upper),
        boundary_ticks(v, lower, upper, delta) is Some,
    ensures
        ({
            let (ticks, fl, fu) = boundary_ticks(v, lower, upper, delta)->0;
            let m = without_emptied(ticks, lower, upper, delta, fl, fu);
            forall|k: int| #[trigger] m.dom().contains(k) ==> MIN_TICK <= k <= MAX_TICK
        }),
{
    let (ticks, fl, fu) = boundary_ticks(v, lower, upper, delta)->0;
    let m = without_emptied(ticks, lower, upper, delta, fl, fu);
    assert forall|k: int| #[trigger] m.dom().contains(k) implies MIN_TICK <= k <= MAX_TICK by {
        assert(ticks.dom().contains(k));
        if k != lower && k != upper {
            assert(v.ticks.dom().contains(k));
        }
    }
}

/// Adding and removing liquidity, in each of the three ways, keeps a pool in order.
pub proof fn modified_keeps_valid(v: PoolView, owner: Seq<char>, lower: int, upper: int, delta: int)
    requires
        pool_valid(v),
    ensures
        modified(v, owner, lower, upper, delta) matches Some((w, a0, a1)) ==> pool_valid(w),
        phantom_modified(v, owner, lower, upper, delta) matches Some((w, a0, a1)) ==> pool_valid(w),
        rapid_modified(v, lower, upper, delta) matches Some((w, a0, a1)) ==> pool_valid(w),
{
    if valid_range(lower, upper) && boundary_ticks(v, lower, upper, delta) is Some {
        boundaries_in_range(v, lower, upper, delta);
    }
}

/// Crediting and collecting keep a pool in order.
pub proof fn credit_keeps_valid(
    v: PoolView,
    owner: Seq<char>,
    lower: int,
    upper: int,
    x: int,
    y: int,
)
    requires
        pool_valid(v),
    ensures
        credited(Some((v, x, y)), owner, lower, upper) matches Some((w, a0, a1)) ==> pool_valid(w),
        pool_collected(v, owner, lower, upper, x, y) matches Some((w, a0, a1)) ==> pool_valid(w),
{
}

/// The first price puts the tick in order.
pub proof fn initialised_keeps_valid(v: PoolView, price: int, t: int)
    requires
        pool_valid(v),
        MIN_TICK <= t < MAX_TICK,
        ratio_at(t) <= price < ratio_at(t + 1),
    ensures
        initialised(v, price) matches Some(w) ==> pool_valid(w),
{
    tick_of_unique(price, t);
}

} // verus!
