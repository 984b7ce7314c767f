//! What holds of a pool after any number of operations on an empty one: its ticks tell
//! what its positions hold, and its active liquidity is what its ticks say.
use crate::arith::{p128, p255, wrap_signed, wrap_signed_facts};
use crate::pool_laws::{
    change_keeps_liquidity, liquidity_adds_up, net_up_to, nets_in_range, swap_keeps_liquidity,
    swap_keeps_sizes, swap_within_bounds, tick_of_exists,
};
use crate::pool_model::{
    boundary_ticks, burned, credited, initialised, minted, modified, modified_keeps_valid,
    pool_collected, pool_valid, swap_end, swapped, tick_matches, without_emptied, PoolView,
};
use crate::position::PositionView;
use crate::position_manager::{position_at, position_key, position_key_unique};
use crate::tick::TickView;
use crate::tick_manager::tick_at;
use crate::types::MIN_TICK;
use vstd::prelude::*;

verus! {

// ── sums over positions ──

/// The sum of a number over a set of keys.
pub open spec fn sum_over(keys: Set<Seq<char>>, f: spec_fn(Seq<char>) -> int) -> int
    decreases keys.len(),
{
    if keys.finite() && keys.len() > 0 {
        let k = keys.choose();
        f(k) + sum_over(keys.remove(k), f)
    } else {
        0
    }
}

proof fn sum_without(keys: Set<Seq<char>>, f: spec_fn(Seq<char>) -> int, k: Seq<char>)
    requires
        keys.finite(),
        keys.contains(k),
    ensures
        sum_over(keys, f) == f(k) + sum_over(keys.remove(k), f),
    decreases keys.len(),
{
    let c = keys.choose();
    if c != k {
        sum_without(keys.remove(c), f, k);
        sum_without(keys.remove(k), f, c);
        assert(keys.remove(c).remove(k) =~= keys.remove(k).remove(c));
    }
}

proof fn sum_same(keys: Set<Seq<char>>, f: spec_fn(Seq<char>) -> int, g: spec_fn(Seq<char>) -> int)
    requires
        forall|k: Seq<char>| keys.contains(k) ==> #[trigger] f(k) == g(k),
    ensures
        sum_over(keys, f) == sum_over(keys, g),
    decreases keys.len(),
{
    if keys.finite() && keys.len() > 0 {
        let c = keys.choose();
        assert(f(c) == g(c));
        sum_same(keys.remove(c), f, g);
    }
}

proof fn sum_not_negative(keys: Set<Seq<char>>, f: spec_fn(Seq<char>) -> int)
    requires
        forall|k: Seq<char>| keys.contains(k) ==> #[trigger] f(k) >= 0,
    ensures
        sum_over(keys, f) >= 0,
    decreases keys.len(),
{
    if keys.finite() && keys.len() > 0 {
        let c = keys.choose();
        assert(f(c) >= 0);
        sum_not_negative(keys.remove(c), f);
    }
}

// ── what the positions hold at a tick ──

/// The range of the position under `key` starts at the tick `k`.
pub open spec fn starts_at(key: Seq<char>, k: int) -> bool {
    exists|owner: Seq<char>, upper: int| key == #[trigger] position_key(owner, k, upper)
}

/// The range of the position under `key` ends at the tick `k`.
pub open spec fn ends_at(key: Seq<char>, k: int) -> bool {
    exists|owner: Seq<char>, lower: int| key == #[trigger] position_key(owner, lower, k)
}

/// The liquidity of all positions whose range starts at a tick.
pub open spec fn starting(m: Map<Seq<char>, PositionView>, k: int) -> int {
    sum_over(
        m.dom(),
        |key: Seq<char>|
            if starts_at(key, k) {
                m[key].liquidity
            } else {
                0
            },
    )
}

/// The liquidity of all positions whose range ends at a tick.
pub open spec fn ending(m: Map<Seq<char>, PositionView>, k: int) -> int {
    sum_over(
        m.dom(),
        |key: Seq<char>|
            if ends_at(key, k) {
                m[key].liquidity
            } else {
                0
            },
    )
}

/// The ticks tell what the positions hold: the gross liquidity of each is that of all
/// positions with a boundary there, and its net liquidity is what starts there less what
/// ends there. A tick that is kept has liquidity.
pub open spec fn books_balance(v: PoolView) -> bool {
    &&& v.positions.dom().finite()
    &&& forall|key: Seq<char>|
        #[trigger] v.positions.dom().contains(key) ==> v.positions[key].liquidity >= 0
    &&& forall|k: int|
        (#[trigger] tick_at(v.ticks, k)).gross == starting(v.positions, k) + ending(v.positions, k)
            && tick_at(v.ticks, k).net == starting(v.positions, k) - ending(v.positions, k)
    &&& forall|k: int| #[trigger] v.ticks.dom().contains(k) ==> 0 < v.ticks[k].gross < p128()
}

proof fn key_bounds(owner: Seq<char>, lower: int, upper: int, k: int)
    ensures
        starts_at(position_key(owner, lower, upper), k) == (k == lower),
        ends_at(position_key(owner, lower, upper), k) == (k == upper),
{
    let key = position_key(owner, lower, upper);
    if starts_at(key, k) {
        let (o, u) = choose|o: Seq<char>, u: int| key == #[trigger] position_key(o, k, u);
        position_key_unique(owner, lower, upper, o, k, u);
    }
    if ends_at(key, k) {
        let (o, l) = choose|o: Seq<char>, l: int| key == #[trigger] position_key(o, l, k);
        position_key_unique(owner, lower, upper, o, l, k);
    }
}

/// What starts and what ends at a tick is not negative, and no less than what one position
/// contributes.
proof fn share_of_sum(m: Map<Seq<char>, PositionView>, key: Seq<char>, k: int)
    requires
        m.dom().finite(),
        forall|j: Seq<char>| #[trigger] m.dom().contains(j) ==> m[j].liquidity >= 0,
    ensures
        starting(m, k) >= 0,
        ending(m, k) >= 0,
        starts_at(key, k) ==> starting(m, k) >= position_at(m, key).liquidity,
        ends_at(key, k) ==> ending(m, k) >= position_at(m, key).liquidity,
{
    let f = |j: Seq<char>|
        if starts_at(j, k) {
            m[j].liquidity
        } else {
            0
        };
    let g = |j: Seq<char>|
        if ends_at(j, k) {
            m[j].liquidity
        } else {
            0
        };
    sum_not_negative(m.dom(), f);
    sum_not_negative(m.dom(), g);
    if m.dom().contains(key) {
        sum_without(m.dom(), f, key);
        sum_not_negative(m.dom().remove(key), f);
        sum_without(m.dom(), g, key);
        sum_not_negative(m.dom().remove(key), g);
    }
}

/// One position changes, and the sums change with it.
proof fn sums_of_change(m: Map<Seq<char>, PositionView>, key: Seq<char>, p: PositionView, k: int)
    requires
        m.dom().finite(),
    ensures
        ({
            let d = p.liquidity - position_at(m, key).liquidity;
            &&& starting(m.insert(key, p), k) == starting(m, k) + (if starts_at(key, k) {
                d
            } else {
                0
            })
            &&& ending(m.insert(key, p), k) == ending(m, k) + (if ends_at(key, k) {
                d
            } else {
                0
            })
        }),
{
    let n = m.insert(key, p);
    let f = |j: Seq<char>|
        if starts_at(j, k) {
            m[j].liquidity
        } else {
            0
        };
    let g = |j: Seq<char>|
        if starts_at(j, k) {
            n[j].liquidity
        } else {
            0
        };
    one_changes(m, key, p, f, g);
    let f2 = |j: Seq<char>|
        if ends_at(j, k) {
            m[j].liquidity
        } else {
            0
        };
    let g2 = |j: Seq<char>|
        if ends_at(j, k) {
            n[j].liquidity
        } else {
            0
        };
    one_changes(m, key, p, f2, g2);
}

proof fn one_changes(
    m: Map<Seq<char>, PositionView>,
    key: Seq<char>,
    p: PositionView,
    f: spec_fn(Seq<char>) -> int,
    g: spec_fn(Seq<char>) -> int,
)
    requires
        m.dom().finite(),
        forall|j: Seq<char>| j != key ==> #[trigger] f(j) == g(j),
    ensures
        sum_over(m.insert(key, p).dom(), g) == sum_over(m.dom(), f) + g(key) - (if m.dom().contains(
            key,
        ) {
            f(key)
        } else {
            0
        }),
{
    let n = m.insert(key, p);
    let rest = m.dom().remove(key);
    assert(n.dom().remove(key) =~= rest);
    sum_without(n.dom(), g, key);
    sum_same(rest, f, g);
    if m.dom().contains(key) {
        sum_without(m.dom(), f, key);
    } else {
        assert(rest =~= m.dom());
    }
}

/// A position without liquidity is taken out, and the sums stay.
proof fn sums_of_removal(m: Map<Seq<char>, PositionView>, key: Seq<char>, k: int)
    requires
        m.dom().finite(),
        m.dom().contains(key),
        m[key].liquidity == 0,
    ensures
        starting(m.remove(key), k) == starting(m, k),
        ending(m.remove(key), k) == ending(m, k),
{
    let n = m.remove(key);
    assert(n.insert(key, m[key]) =~= m);
    assert(n.dom() =~= m.dom().remove(key));
    sums_of_change(n, key, m[key], k);
}

// ── what each operation keeps ──

/// A pool whose ticks tell what its positions hold, whose active liquidity is what the
/// ticks say and whose current tick agrees with its price.
pub open spec fn pool_adds_up(v: PoolView) -> bool {
    &&& pool_valid(v)
    &&& v.price != 0
    &&& books_balance(v)
    &&& liquidity_adds_up(v)
}

/// At every tick what starts and what ends is not negative, so that the net liquidity is
/// no more than the gross one.
proof fn nets_are_small(v: PoolView)
    requires
        books_balance(v),
    ensures
        nets_in_range(v.ticks),
        forall|k: int|
            {
                let t = #[trigger] tick_at(v.ticks, k);
                0 <= t.gross < p128() && -t.gross <= t.net <= t.gross
            },
{
    assert forall|k: int|
        {
            let t = #[trigger] tick_at(v.ticks, k);
            0 <= t.gross < p128() && -t.gross <= t.net <= t.gross
        } by {
        share_of_sum(v.positions, Seq::empty(), k);
    }
    assert forall|k: int| #[trigger] v.ticks.dom().contains(k) implies -p255() < v.ticks[k].net
        < p255() by {
        let t = tick_at(v.ticks, k);
        assert(-t.gross <= t.net <= t.gross);
    }
}

/// A tick that a removal empties has nothing left that starts or ends there.
proof fn emptied_is_even(v: PoolView, owner: Seq<char>, lower: int, upper: int, delta: int)
    requires
        books_balance(v),
        delta < 0 ==> position_at(v.positions, position_key(owner, lower, upper)).liquidity
            >= -delta,
        delta != 0,
        boundary_ticks(v, lower, upper, delta) is Some,
    ensures
        tick_at(v.ticks, lower).gross + delta == 0 ==> tick_at(v.ticks, lower).net + delta == 0,
        tick_at(v.ticks, upper).gross + delta == 0 ==> tick_at(v.ticks, upper).net - delta == 0,
{
    let key = position_key(owner, lower, upper);
    share_of_sum(v.positions, key, lower);
    share_of_sum(v.positions, key, upper);
    key_bounds(owner, lower, upper, lower);
    key_bounds(owner, lower, upper, upper);
}

/// The liquidity at the ticks after a change in a range.
proof fn sizes_of_change(v: PoolView, owner: Seq<char>, lower: int, upper: int, delta: int, k: int)
    requires
        books_balance(v),
        modified(v, owner, lower, upper, delta) is Some,
    ensures
        ({
            let w = (modified(v, owner, lower, upper, delta)->0).0;
            let t = tick_at(v.ticks, k);
            let u = tick_at(w.ticks, k);
            &&& u.gross == t.gross + (if k == lower || k == upper {
                delta
            } else {
                0
            })
            &&& u.net == t.net + (if k == lower {
                delta
            } else if k == upper {
                -delta
            } else {
                0
            })
            &&& w.ticks.dom().contains(k) ==> 0 < w.ticks[k].gross < p128()
        }),
{
    let (w, a0, a1) = modified(v, owner, lower, upper, delta)->0;
    if delta != 0 {
        nets_are_small(v);
        emptied_is_even(v, owner, lower, upper, delta);
        let tl = tick_at(v.ticks, lower);
        let tu = tick_at(v.ticks, upper);
        assert(-tl.gross <= tl.net <= tl.gross);
        assert(-tu.gross <= tu.net <= tu.gross);
        wrap_signed_facts(tl.net + delta);
        wrap_signed_facts(tu.net - delta);
        let (ticks, fl, fu) = boundary_ticks(v, lower, upper, delta)->0;
        assert(ticks[lower].net == tl.net + delta);
        assert(ticks[upper].net == tu.net - delta);
        assert(ticks[lower].gross == tl.gross + delta);
        assert(ticks[upper].gross == tu.gross + delta);
        assert(w.ticks == without_emptied(ticks, lower, upper, delta, fl, fu));
    }
}

/// Adding and removing liquidity keeps a pool adding up.
pub proof fn change_adds_up(v: PoolView, owner: Seq<char>, lower: int, upper: int, delta: int)
    requires
        pool_adds_up(v),
        modified(v, owner, lower, upper, delta) is Some,
    ensures
        pool_adds_up((modified(v, owner, lower, upper, delta)->0).0),
{
    let (w, a0, a1) = modified(v, owner, lower, upper, delta)->0;
    let key = position_key(owner, lower, upper);
    modified_keeps_valid(v, owner, lower, upper, delta);
    nets_are_small(v);
    let tl = tick_at(v.ticks, lower);
    let tu = tick_at(v.ticks, upper);
    if delta != 0 {
        emptied_is_even(v, owner, lower, upper, delta);
        assert(-tl.gross <= tl.net <= tl.gross);
        assert(-tu.gross <= tu.net <= tu.gross);
        change_keeps_liquidity(v, owner, lower, upper, delta);
    }
    assert forall|k: int|
        (#[trigger] tick_at(w.ticks, k)).gross == starting(w.positions, k) + ending(
            w.positions,
            k,
        ) && tick_at(w.ticks, k).net == starting(w.positions, k) - ending(w.positions, k) by {
        let t = tick_at(v.ticks, k);
        sizes_of_change(v, owner, lower, upper, delta, k);
        sums_of_change(v.positions, key, w.positions[key], k);
        key_bounds(owner, lower, upper, k);
    }
    assert forall|k: int| #[trigger] w.ticks.dom().contains(k) implies 0 < w.ticks[k].gross
        < p128() by {
        sizes_of_change(v, owner, lower, upper, delta, k);
    }
}

/// A change of positions that keeps their liquidity keeps the books.
proof fn same_books(v: PoolView, w: PoolView, key: Seq<char>)
    requires
        books_balance(v),
        w.ticks == v.ticks,
        ({
            ||| w.positions == v.positions
            ||| exists|p: PositionView|
                w.positions == #[trigger] v.positions.insert(key, p) && p.liquidity == position_at(
                    v.positions,
                    key,
                ).liquidity
            ||| v.positions.dom().contains(key) && v.positions[key].liquidity == 0 && w.positions
                == v.positions.remove(key)
        }),
    ensures
        books_balance(w),
{
    assert forall|k: int|
        (#[trigger] tick_at(w.ticks, k)).gross == starting(w.positions, k) + ending(
            w.positions,
            k,
        ) && tick_at(w.ticks, k).net == starting(w.positions, k) - ending(w.positions, k) by {
        let t = tick_at(v.ticks, k);
        if exists|p: PositionView|
            w.positions == #[trigger] v.positions.insert(key, p) && p.liquidity == position_at(
                v.positions,
                key,
            ).liquidity {
            let p = choose|p: PositionView|
                w.positions == #[trigger] v.positions.insert(key, p) && p.liquidity == position_at(
                    v.positions,
                    key,
                ).liquidity;
            sums_of_change(v.positions, key, p, k);
        } else if w.positions != v.positions {
            sums_of_removal(v.positions, key, k);
        }
    }
}

/// Crediting what a removal gives keeps a pool adding up.
proof fn credit_adds_up(v: PoolView, owner: Seq<char>, lower: int, upper: int, x: int, y: int)
    requires
        pool_adds_up(v),
    ensures
        pool_adds_up((credited(Some((v, x, y)), owner, lower, upper)->0).0),
{
    let (w, b0, b1) = credited(Some((v, x, y)), owner, lower, upper)->0;
    same_books(v, w, position_key(owner, lower, upper));
}

/// Collecting keeps a pool adding up.
pub proof fn collect_adds_up(v: PoolView, owner: Seq<char>, lower: int, upper: int, x: int, y: int)
    requires
        pool_adds_up(v),
        pool_collected(v, owner, lower, upper, x, y) is Some,
    ensures
        pool_adds_up((pool_collected(v, owner, lower, upper, x, y)->0).0),
{
    let (w, b0, b1) = pool_collected(v, owner, lower, upper, x, y)->0;
    same_books(v, w, position_key(owner, lower, upper));
}

/// A swap keeps a pool adding up.
pub proof fn swap_adds_up(v: PoolView, zero_for_one: bool, amount: int, limit: Option<int>)
    requires
        pool_adds_up(v),
        -p255() <= amount < p255(),
        swap_end(v, zero_for_one, amount, limit) is Some,
    ensures
        pool_adds_up(swapped(v, zero_for_one, swap_end(v, zero_for_one, amount, limit)->0)),
{
    let s = swap_end(v, zero_for_one, amount, limit)->0;
    let w = swapped(v, zero_for_one, s);
    nets_are_small(v);
    swap_within_bounds(v, zero_for_one, amount, limit);
    swap_keeps_liquidity(v, zero_for_one, amount, limit);
    swap_keeps_sizes(v, zero_for_one, amount, limit);
    assert(w.price != 0) by {
        reveal(swap_end);
    }
    assert forall|k: int|
        (#[trigger] tick_at(w.ticks, k)).gross == starting(w.positions, k) + ending(
            w.positions,
            k,
        ) && tick_at(w.ticks, k).net == starting(w.positions, k) - ending(w.positions, k) by {
        let t = tick_at(v.ticks, k);
    }
    assert forall|k: int| #[trigger] w.ticks.dom().contains(k) implies 0 < w.ticks[k].gross
        < p128() by {
        assert(v.ticks.dom().contains(k));
        assert(tick_at(w.ticks, k).gross == tick_at(v.ticks, k).gross);
    }
}

// ── any number of operations ──

/// One operation on a pool.
pub ghost enum PoolStep {
    Mint { owner: Seq<char>, lower: int, upper: int, amount: int },
    Burn { owner: Seq<char>, lower: int, upper: int, amount: int },
    Collect { owner: Seq<char>, lower: int, upper: int, requested0: int, requested1: int },
    Swap { zero_for_one: bool, amount: int, limit: Option<int> },
}

/// The pool after an operation. Fails where the operation does, and for a swap of an amount
/// that is no signed number of 256 bits.
pub open spec fn after_step(v: PoolView, step: PoolStep) -> Option<PoolView> {
    match step {
        PoolStep::Mint { owner, lower, upper, amount } => match minted(
            v,
            owner,
            lower,
            upper,
            amount,
        ) {
            Some((w, _, _)) => Some(w),
            None => None,
        },
        PoolStep::Burn { owner, lower, upper, amount } => match burned(
            v,
            owner,
            lower,
            upper,
            amount,
        ) {
            Some((w, _, _)) => Some(w),
            None => None,
        },
        PoolStep::Collect { owner, lower, upper, requested0, requested1 } => match pool_collected(
            v,
            owner,
            lower,
            upper,
            requested0,
            requested1,
        ) {
            Some((w, _, _)) => Some(w),
            None => None,
        },
        PoolStep::Swap { zero_for_one, amount, limit } => if -p255() <= amount < p255() {
            match swap_end(v, zero_for_one, amount, limit) {
                Some(s) => Some(swapped(v, zero_for_one, s)),
                None => None,
            }
        } else {
            None
        },
    }
}

/// The pool after operations one after the other. Fails where one of them does.
pub open spec fn after_steps(v: PoolView, steps: Seq<PoolStep>) -> Option<PoolView>
    decreases steps.len(),
{
    if steps.len() == 0 {
        Some(v)
    } else {
        match after_steps(v, steps.drop_last()) {
            Some(w) => after_step(w, steps.last()),
            None => None,
        }
    }
}

/// A pool that has no price yet, no liquidity, no tick and no position.
pub open spec fn is_fresh(v: PoolView) -> bool {
    &&& v.price == 0
    &&& v.liquidity == 0
    &&& v.ticks == Map::<int, TickView>::empty()
    &&& v.positions == Map::<Seq<char>, PositionView>::empty()
}

/// Every operation keeps a pool adding up.
pub proof fn step_adds_up(v: PoolView, step: PoolStep)
    requires
        pool_adds_up(v),
        after_step(v, step) is Some,
    ensures
        pool_adds_up(after_step(v, step)->0),
{
    match step {
        PoolStep::Mint { owner, lower, upper, amount } => {
            change_adds_up(v, owner, lower, upper, amount);
        },
        PoolStep::Burn { owner, lower, upper, amount } => {
            let delta = wrap_signed(-amount);
            change_adds_up(v, owner, lower, upper, delta);
            let (w, a0, a1) = modified(v, owner, lower, upper, delta)->0;
            credit_adds_up(w, owner, lower, upper, a0, a1);
        },
        PoolStep::Collect { owner, lower, upper, requested0, requested1 } => {
            collect_adds_up(v, owner, lower, upper, requested0, requested1);
        },
        PoolStep::Swap { zero_for_one, amount, limit } => {
            swap_adds_up(v, zero_for_one, amount, limit);
        },
    }
}

proof fn nothing_up_to(t: int)
    ensures
        net_up_to(Map::empty(), t) == 0,
    decreases t - MIN_TICK + 1,
{
    if t >= MIN_TICK {
        nothing_up_to(t - 1);
    }
}

/// A fresh pool adds up once it has a price.
pub proof fn first_price_adds_up(v: PoolView, price: int)
    requires
        pool_valid(v),
        is_fresh(v),
        initialised(v, price) is Some,
    ensures
        pool_adds_up(initialised(v, price)->0),
{
    let w = initialised(v, price)->0;
    tick_of_exists(price);
    nothing_up_to(w.tick);
    assert(w.positions.dom() =~= Set::<Seq<char>>::empty());
}

/// However many operations follow the first price of a fresh pool: its active liquidity is
/// the sum of the net liquidity at all ticks up to the current one, its price lies between
/// the prices of that tick and of the one above it, and its ticks tell what its positions
/// hold.
pub proof fn every_pool_adds_up(v: PoolView, price: int, steps: Seq<PoolStep>)
    requires
        pool_valid(v),
        is_fresh(v),
        initialised(v, price) is Some,
        after_steps(initialised(v, price)->0, steps) is Some,
    ensures
        ({
            let w = after_steps(initialised(v, price)->0, steps)->0;
            &&& pool_adds_up(w)
            &&& w.liquidity == net_up_to(w.ticks, w.tick)
            &&& tick_matches(w.tick, w.price)
        }),
    decreases steps.len(),
{
    if steps.len() == 0 {
        first_price_adds_up(v, price);
    } else {
        every_pool_adds_up(v, price, steps.drop_last());
        step_adds_up(after_steps(initialised(v, price)->0, steps.drop_last())->0, steps.last());
    }
}

} // verus!
