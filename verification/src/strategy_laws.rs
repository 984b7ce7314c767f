//! What holds of a simulation as a whole: of the events that it replays and of what it
//! records.
use crate::arb::{detected, gap_closed};
use crate::arith::{div_facts, div_unique, p128, p255, p256, wrap_signed, wrap_signed_facts};
use crate::config::{Config, SlowRecenterConfig};
use crate::enums::EventType;
use crate::event_reader::EventView;
use crate::lev_model::lev_run;
use crate::pool_config::TokenRole;
use crate::pool_laws::{part_can_be_burned, swap_within_bounds};
use crate::pool_model::{
    burned, credit_keeps_valid, credited, minted, modified, modified_keeps_valid, pool_valid,
    swap_end, PoolView,
};
use crate::position_manager::{position_at, position_key};
use crate::strategy_model::{
    all_replayed, alm_step, arb_step, dlv_step, due_until, events_dispatched, first_moment,
    has_no_ticks, lev_stepped, next_moment, period_entries, period_starts, periods_from,
    price_ahead, recenter_dispatched, recenter_due, regulate_step, replayed, swap_direction,
    swap_terms, ArbStep, Counts, Dispatch, EntrySource, LevStep, Sim, SnapView,
};
use crate::tick_manager::tick_at;
use crate::types::abs;
use crate::vault_laws::{
    deploy_moves_holdings, harvest_moves_holdings, idle_stable_counts_in_full, only_holdings_differ,
};
use crate::vault_lev::lev_terms;
use crate::vault_math::smaller;
use crate::vault_model::{all_harvested, deployed, gross_value, net_value, totals, VaultView};
use crate::vault_recenter::{recentered, Deviation};
use vstd::prelude::*;

verus! {

// ── events ──

/// The amounts of an event are within 256 bits.
pub open spec fn event_fits(e: EventView) -> bool {
    &&& -p255() <= e.amount0 < p255()
    &&& -p255() <= e.amount1 < p255()
    &&& match e.amount_specified {
        Some(a) => -p255() <= a < p255(),
        None => true,
    }
}

proof fn liquidity_change_keeps(p: PoolView, owner: Seq<char>, lower: int, upper: int, amount: int)
    requires
        pool_valid(p),
    ensures
        minted(p, owner, lower, upper, amount) matches Some((q, a0, a1)) ==> pool_valid(q) && q.price
            == p.price,
        burned(p, owner, lower, upper, amount) matches Some((q, a0, a1)) ==> pool_valid(q) && q.price
            == p.price,
{
    let delta = wrap_signed(-amount);
    modified_keeps_valid(p, owner, lower, upper, amount);
    modified_keeps_valid(p, owner, lower, upper, delta);
    if let Some((q, a0, a1)) = modified(p, owner, lower, upper, delta) {
        credit_keeps_valid(q, owner, lower, upper, a0, a1);
    }
}

/// Whatever event is replayed, a pool that is in order stays so.
pub proof fn replay_keeps_order(p: PoolView, e: EventView)
    requires
        pool_valid(p),
        p.price != 0,
        event_fits(e),
    ensures
        pool_valid(replayed(p, e)),
        replayed(p, e).price != 0,
{
    reveal(replayed);
    assert forall|who: Seq<char>, a: int, b: int, n: int| #[trigger]
        minted(p, who, a, b, n) matches Some((q, a0, a1)) ==> pool_valid(q) && q.price == p.price by {
        liquidity_change_keeps(p, who, a, b, n);
    }
    assert forall|who: Seq<char>, a: int, b: int, n: int| #[trigger]
        burned(p, who, a, b, n) matches Some((q, a0, a1)) ==> pool_valid(q) && q.price == p.price by {
        liquidity_change_keeps(p, who, a, b, n);
    }
    if e.event_type == EventType::Swap {
        let (amount, limit) = swap_terms(p, e);
        if swap_end(p, swap_direction(e), amount, Some(limit)) is Some {
            reveal(swap_end);
            swap_within_bounds(p, swap_direction(e), amount, Some(limit));
        }
    }
}

/// A recorded swap whose price lies ahead moves the pool towards that price and never
/// past it.
pub proof fn replayed_swap_stops_at_recorded_price(p: PoolView, e: EventView)
    requires
        pool_valid(p),
        p.price != 0,
        event_fits(e),
        e.event_type == EventType::Swap,
        price_ahead(p, swap_direction(e), e.sqrt_price_x96),
    ensures
        swap_direction(e) ==> e.sqrt_price_x96->0 <= replayed(p, e).price <= p.price,
        !swap_direction(e) ==> p.price <= replayed(p, e).price <= e.sqrt_price_x96->0,
{
    reveal(replayed);
    let (amount, limit) = swap_terms(p, e);
    if swap_end(p, swap_direction(e), amount, Some(limit)) is Some {
        swap_within_bounds(p, swap_direction(e), amount, Some(limit));
    }
}

/// A pool that differs from another one in nothing but a liquidity change of `delta` of one
/// position: the position has that much more, and so has the pool where its price lies in
/// the range; every other position, the price and the tick are the same.
pub open spec fn differs_by_liquidity(
    p: PoolView,
    q: PoolView,
    owner: Seq<char>,
    lower: int,
    upper: int,
    delta: int,
) -> bool {
    let key = position_key(owner, lower, upper);
    &&& position_at(q.positions, key).liquidity == position_at(p.positions, key).liquidity + delta
    &&& q.liquidity == p.liquidity + (if lower <= p.tick < upper {
        delta
    } else {
        0
    })
    &&& forall|k: Seq<char>| k != key ==> #[trigger] position_at(q.positions, k) == position_at(
        p.positions,
        k,
    )
    &&& q.price == p.price
    &&& q.tick == p.tick
}

proof fn change_differs(p: PoolView, owner: Seq<char>, lower: int, upper: int, delta: int)
    ensures
        modified(p, owner, lower, upper, delta) matches Some((q, a0, a1)) ==> differs_by_liquidity(
            p,
            q,
            owner,
            lower,
            upper,
            delta,
        ),
        credited(modified(p, owner, lower, upper, delta), owner, lower, upper) matches Some(
            (q, a0, a1),
        ) ==> differs_by_liquidity(p, q, owner, lower, upper, delta),
{
}

/// A recorded mint adds just the recorded liquidity: to the position of its recipient in the
/// recorded range, or of its sender where no recipient is recorded. Where the pool cannot
/// take it, and where no liquidity is recorded, nothing changes.
pub proof fn replayed_mint_adds_what_is_recorded(p: PoolView, e: EventView, lower: int, upper: int)
    requires
        e.event_type == EventType::Mint,
        lower == (match e.tick_lower {
            Some(x) => x as int,
            None => 0,
        }),
        upper == (match e.tick_upper {
            Some(x) => x as int,
            None => 0,
        }),
    ensures
        ({
            let owner = if e.recipient.len() > 0 {
                e.recipient
            } else {
                e.msg_sender
            };
            let q = replayed(p, e);
            &&& e.liquidity > 0 && minted(p, owner, lower, upper, e.liquidity) is Some
                ==> differs_by_liquidity(p, q, owner, lower, upper, e.liquidity)
            &&& e.liquidity <= 0 || minted(p, owner, lower, upper, e.liquidity) is None ==> q == p
        }),
{
    reveal(replayed);
    let owner = if e.recipient.len() > 0 {
        e.recipient
    } else {
        e.msg_sender
    };
    change_differs(p, owner, lower, upper, e.liquidity);
}

/// A recorded burn removes just the recorded liquidity from the position of its sender in
/// the recorded range, or all of it where the position has less. Where the pool cannot give
/// it back, where the position has none and where none is recorded, nothing changes.
pub proof fn replayed_burn_removes_what_is_recorded(
    p: PoolView,
    e: EventView,
    lower: int,
    upper: int,
)
    requires
        e.event_type == EventType::Burn,
        lower == (match e.tick_lower {
            Some(x) => x as int,
            None => 0,
        }),
        upper == (match e.tick_upper {
            Some(x) => x as int,
            None => 0,
        }),
        0 <= position_at(p.positions, position_key(e.msg_sender, lower, upper)).liquidity < p128(),
        e.liquidity < p255(),
    ensures
        ({
            let had = position_at(p.positions, position_key(e.msg_sender, lower, upper)).liquidity;
            let part = if e.liquidity < had {
                e.liquidity
            } else {
                had
            };
            let q = replayed(p, e);
            &&& part > 0 && burned(p, e.msg_sender, lower, upper, part) is Some
                ==> differs_by_liquidity(p, q, e.msg_sender, lower, upper, -part)
            &&& part <= 0 || burned(p, e.msg_sender, lower, upper, part) is None ==> q == p
        }),
{
    reveal(replayed);
    let had = position_at(p.positions, position_key(e.msg_sender, lower, upper)).liquidity;
    let part = if e.liquidity < had {
        e.liquidity
    } else {
        had
    };
    wrap_signed_facts(had);
    wrap_signed_facts(-part);
    change_differs(p, e.msg_sender, lower, upper, -part);
}

/// After a recorded mint, a recorded burn of no more than that by the same owner in the
/// same range is always possible, and leaves the position with what it had before, plus
/// the one, less the other.
pub proof fn replayed_mint_and_burn_add_up(p: PoolView, m: EventView, b: EventView)
    requires
        pool_valid(p),
        p.price != 0,
        m.event_type == EventType::Mint,
        b.event_type == EventType::Burn,
        m.tick_lower is Some && b.tick_lower == m.tick_lower,
        m.tick_upper is Some && b.tick_upper == m.tick_upper,
        b.msg_sender == (if m.recipient.len() > 0 {
            m.recipient
        } else {
            m.msg_sender
        }),
        0 < b.liquidity <= m.liquidity < p128(),
        0 <= tick_at(p.ticks, m.tick_lower->0 as int).gross,
        0 <= tick_at(p.ticks, m.tick_upper->0 as int).gross,
        0 <= position_at(
            p.positions,
            position_key(b.msg_sender, m.tick_lower->0 as int, m.tick_upper->0 as int),
        ).liquidity,
        minted(
            p,
            b.msg_sender,
            m.tick_lower->0 as int,
            m.tick_upper->0 as int,
            m.liquidity,
        ) is Some,
    ensures
        differs_by_liquidity(
            p,
            replayed(replayed(p, m), b),
            b.msg_sender,
            m.tick_lower->0 as int,
            m.tick_upper->0 as int,
            m.liquidity - b.liquidity,
        ),
{
    let lower = m.tick_lower->0 as int;
    let upper = m.tick_upper->0 as int;
    let q = replayed(p, m);
    replayed_mint_adds_what_is_recorded(p, m, lower, upper);
    part_can_be_burned(p, b.msg_sender, lower, upper, m.liquidity, b.liquidity);
    assert(q == (minted(p, b.msg_sender, lower, upper, m.liquidity)->0).0) by {
        reveal(replayed);
    }
    replayed_burn_removes_what_is_recorded(q, b, lower, upper);
}

/// Without any ticks a swap finds nothing to trade with: the pool stays as it is.
pub proof fn swaps_need_ticks(p: PoolView, e: EventView)
    requires
        has_no_ticks(p),
        e.event_type == EventType::Swap,
    ensures
        replayed(p, e) == p,
{
    reveal(replayed);
}

/// The events are replayed the same in one go and in two.
pub proof fn replay_in_parts(p: PoolView, a: Seq<EventView>, b: Seq<EventView>)
    ensures
        all_replayed(p, a + b) == all_replayed(all_replayed(p, a), b),
    decreases b.len(),
{
    if b.len() == 0 {
        assert(a + b =~= a);
    } else {
        replay_in_parts(p, a, b.drop_last());
        assert((a + b).drop_last() =~= a + b.drop_last());
        assert((a + b).last() == b.last());
    }
}

proof fn due_facts(events: Seq<EventView>, from: int, first: int, second: int)
    requires
        0 <= from <= events.len(),
        first <= second,
    ensures
        from <= due_until(events, from, first) <= due_until(events, from, second) <= events.len(),
        due_until(events, due_until(events, from, first), second) == due_until(events, from, second),
    decreases events.len() - from,
{
    if from < events.len() {
        due_facts(events, from + 1, first, second);
        due_facts_one(events, from, second);
    }
}

proof fn due_facts_one(events: Seq<EventView>, from: int, moment: int)
    requires
        0 <= from <= events.len(),
    ensures
        from <= due_until(events, from, moment) <= events.len(),
    decreases events.len() - from,
{
    if from < events.len() {
        due_facts_one(events, from + 1, moment);
    }
}

/// How time is cut into steps does not matter to the events: going on to a moment in two
/// steps replays what going on in one does.
pub proof fn steps_do_not_matter(s: Sim, events: Seq<EventView>, first: int, second: int)
    requires
        0 <= s.counts.cursor <= events.len(),
        first <= second,
    ensures
        events_dispatched(events_dispatched(s, events, first), events, second)
            == events_dispatched(s, events, second),
{
    let from = s.counts.cursor;
    due_facts(events, from, first, second);
    let mid = due_until(events, from, first);
    let end = due_until(events, from, second);
    replay_in_parts(s.pool, events.subrange(from, mid), events.subrange(mid, end));
    assert(events.subrange(from, mid) + events.subrange(mid, end) =~= events.subrange(from, end));
}

// ── periods ──

/// A part of a period that does not act leaves the vault and the pool as they are.
pub proof fn idle_parts_change_nothing(
    v: VaultView,
    p: PoolView,
    cfg: Config,
    tc: int,
    now: int,
    tick: int,
    widths: Option<(i32, i32)>,
)
    ensures
        dlv_step(v, p, cfg, tc, now) matches Some((w, q, fired)) ==> !fired ==> w == v && q == p,
        alm_step(v, p, cfg, now, tick) matches Some((w, q, fired)) ==> !fired ==> w == v && q == p,
        regulate_step(v, p, cfg, tc, widths) matches Some((w, q, (dealt, changed))) ==> !dealt ==> w
            == v && q == p,
{
    reveal(dlv_step);
    reveal(alm_step);
    reveal(regulate_step);
}

/// A period records at most one snapshot: in front of all else, or at the end.
pub proof fn snapshot_comes_first_or_last(
    vol0: bool,
    due: bool,
    early: bool,
    start: SnapView,
    arb: ArbStep,
    lev: LevStep,
    dlv: Dispatch,
    alm: Dispatch,
    before: Option<SnapView>,
    after: SnapView,
    i: int,
)
    requires
        0 <= i < period_entries(vol0, due, early, start, arb, lev, dlv, alm, before, after).len(),
        period_entries(vol0, due, early, start, arb, lev, dlv, alm, before, after)[i].source
            == EntrySource::Snap,
    ensures
        due,
        early ==> i == 0,
        !early ==> i == period_entries(
            vol0,
            due,
            early,
            start,
            arb,
            lev,
            dlv,
            alm,
            before,
            after,
        ).len() - 1,
{
}

// ── periods ──

/// The quotient of two numbers rounded up.
pub open spec fn rounded_up(n: int, d: int) -> int {
    (n + d - 1) / d
}

proof fn one_step_less(n: int, d: int)
    requires
        d > 0,
    ensures
        n > d ==> rounded_up(n, d) == 1 + rounded_up(n - d, d),
        0 < n <= d ==> rounded_up(n, d) == 1,
{
    div_facts(n - 1, d);
    div_facts(n + d - 1, d);
    let q = (n - 1) / d;
    assert((q + 1) * d == q * d + d) by (nonlinear_arith);
    div_unique(n + d - 1, d, q + 1, (n - 1) % d);
    if 0 < n <= d {
        assert(0 * d == 0);
        div_unique(n - 1, d, 0, n - 1);
    }
}

proof fn periods_left(at: int, end: int, step: int, count: int, max: Option<int>)
    requires
        step > 0,
        period_starts(at, end, count, max),
    ensures
        periods_from(Some(at), end, step, count, max) == (match max {
            Some(m) => smaller(rounded_up(end - at, step), m - count),
            None => rounded_up(end - at, step),
        }),
    decreases end - at,
{
    one_step_less(end - at, step);
    let next = next_moment(at, end, step, count + 1, max);
    if next is Some {
        periods_left(at + step, end, step, count + 1, max);
    } else {
        assert(periods_from(next, end, step, count + 1, max) == 0);
        if at + step < end {
            at_least_one(end - at - step, step);
        }
    }
}

proof fn at_least_one(n: int, d: int)
    requires
        n > 0,
        d > 0,
    ensures
        rounded_up(n, d) >= 1,
    decreases n,
{
    one_step_less(n, d);
    if n > d {
        at_least_one(n - d, d);
    }
}

/// As many periods run as steps are needed to cover the window, the last one perhaps cut
/// short, or the maximum if that is smaller.
pub proof fn periods_cover_window(start: int, end: int, step: int, max: Option<int>)
    requires
        step > 0,
        max matches Some(m) ==> m >= 0,
    ensures
        ({
            let n = periods_from(first_moment(start, end, max), end, step, 0, max);
            let steps = if start < end {
                rounded_up(end - start, step)
            } else {
                0
            };
            n == (match max {
                Some(m) => smaller(steps, m),
                None => steps,
            })
        }),
{
    if start < end {
        at_least_one(end - start, step);
        if period_starts(start, end, 0, max) {
            periods_left(start, end, step, 0, max);
        }
    }
}

// ── the leverage market maker ──

/// Only the price source `binance` lets an outside price in. With any other source a step
/// is the same at every outside price and without one; it is the step at the pool's own
/// price.
pub proof fn outside_price_needs_its_source(
    v: VaultView,
    p: PoolView,
    cfg: Config,
    tc: int,
    a: Option<int>,
    b: Option<int>,
)
    requires
        cfg.dlv.alm_swap_price_source@ != "binance"@,
    ensures
        lev_stepped(v, p, cfg, tc, a) == lev_stepped(v, p, cfg, tc, b),
        cfg.lev_amm.enabled ==> acts_like(
            lev_stepped(v, p, cfg, tc, a),
            lev_run(v, p, lev_terms(cfg.lev_amm), tc, Some(p.price)),
        ),
{
    reveal(lev_stepped);
}

/// With the price source `binance` a step is taken at the outside price; where there is
/// none, or it is zero, at the pool's own.
pub proof fn binance_source_takes_outside_price(
    v: VaultView,
    p: PoolView,
    cfg: Config,
    tc: int,
    outside: Option<int>,
)
    requires
        cfg.lev_amm.enabled,
        cfg.dlv.alm_swap_price_source@ == "binance"@,
    ensures
        outside matches Some(x) ==> x != 0 ==> acts_like(
            lev_stepped(v, p, cfg, tc, outside),
            lev_run(v, p, lev_terms(cfg.lev_amm), tc, Some(x)),
        ),
        outside is None || outside == Some(0int) ==> acts_like(
            lev_stepped(v, p, cfg, tc, outside),
            lev_run(v, p, lev_terms(cfg.lev_amm), tc, Some(p.price)),
        ),
{
    reveal(lev_stepped);
}

/// A dispatched step leaves vault and pool as the step itself does, and says whether it
/// traded. Where it did not, it tells no value.
pub open spec fn acts_like(
    r: Option<(VaultView, PoolView, LevStep)>,
    s: Option<(VaultView, PoolView, (int, bool))>,
) -> bool {
    match (r, s) {
        (Some((v, p, l)), Some((w, q, (fee, traded)))) => {
            &&& v == w
            &&& p == q
            &&& l.fired == traded
            &&& traded ==> net_value(v, p, None) == Some(l.nav) && l.debt == v.debt
        },
        (None, Some((w, q, (fee, traded)))) => traded && net_value(w, q, None) is None,
        (None, None) => true,
        (Some(x), None) => false,
    }
}

/// A leverage market maker that is switched off does nothing.
pub proof fn disabled_lev_does_nothing(
    v: VaultView,
    p: PoolView,
    cfg: Config,
    tc: int,
    outside: Option<int>,
)
    requires
        !cfg.lev_amm.enabled,
    ensures
        lev_stepped(v, p, cfg, tc, outside) matches Some((w, q, l)) && w == v && q == p && !l.fired,
{
    reveal(lev_stepped);
}

// ── arbitrage ──

/// A gain from an arbitrage is given to the vault as idle stable tokens, token 1 where
/// token 0 is the volatile one and else token 0, and nothing but that changes in the
/// vault; its value rises by the gain at every price. Nothing is given where there is no
/// gain or where giving is switched off. All of this is before the fees are put to work
/// again.
#[verifier::rlimit(30)]
pub proof fn arbitrage_gives_its_gain(
    v: VaultView,
    p: PoolView,
    outside: int,
    fee: int,
    keep: bool,
    o: Option<int>,
)
    requires
        arb_step(v, p, Some(outside), fee, keep, false) is Some,
        detected(p.price, outside, fee) is Some,
    ensures
        ({
            let (w, q, a) = arb_step(v, p, Some(outside), fee, keep, false)->0;
            let d = detected(p.price, outside, fee)->0;
            let (u, a0, a1, gain) = gap_closed(p, d, v.config.volatile_token == TokenRole::Token0)->0;
            &&& q == u
            &&& a.fired == d.arbitrable
            &&& a.fired ==> a.profit == (if gain < 0 {
                -gain
            } else {
                gain
            })
            &&& keep || !a.fired || gain <= 0 ==> w == v
            &&& !keep && a.fired && gain > 0 ==> {
                &&& v.config.volatile_token == TokenRole::Token0 ==> w == (VaultView {
                    idle1: (v.idle1 + gain) % p256(),
                    ..v
                })
                &&& v.config.volatile_token == TokenRole::Token1 ==> w == (VaultView {
                    idle0: (v.idle0 + gain) % p256(),
                    ..v
                })
                &&& totals(v, q, false) is Some ==> gross_value(w, q, o) == Some(
                    (gross_value(v, q, o)->0 + gain) % p256(),
                )
            }
            &&& w.debt == v.debt
        }),
{
    reveal(arb_step);
    let (w, q, a) = arb_step(v, p, Some(outside), fee, keep, false)->0;
    let d = detected(p.price, outside, fee)->0;
    let (u, a0, a1, gain) = gap_closed(p, d, v.vol0())->0;
    if d.arbitrable && gain > 0 && !keep && totals(v, q, false) is Some {
        idle_stable_counts_in_full(v, q, gain, o);
    }
}

/// Whether or not the fees are put to work again, arbitrage touches neither debt nor shares
/// nor settings. Without an outside price it does nothing.
#[verifier::rlimit(30)]
pub proof fn arbitrage_moves_holdings(
    v: VaultView,
    p: PoolView,
    outside: Option<int>,
    fee: int,
    keep: bool,
    recycle: bool,
)
    ensures
        arb_step(v, p, outside, fee, keep, recycle) matches Some((w, q, a)) ==> only_holdings_differ(
            v,
            w,
        ) && (a.fired ==> a.debt == v.debt && net_value(w, q, None) == Some(a.nav) && a.sqrt
            == p.price),
        outside is None ==> (arb_step(v, p, outside, fee, keep, recycle) matches Some((w, q, a)) && w
            == v && q == p && !a.fired),
{
    reveal(arb_step);
    if let Some(x) = outside {
        if let Some(d) = detected(p.price, x, fee) {
            if let Some((q, a0, a1, gain)) = gap_closed(p, d, v.vol0()) {
                let w = if gain > 0 && !keep {
                    v.plus_stable(abs(gain))
                } else {
                    v
                };
                harvest_moves_holdings(w, q);
                if let Some((w1, q1)) = all_harvested(w, q) {
                    deploy_moves_holdings(w1, q1);
                }
            }
        }
    }
}

/// Where the fees are to be put to work again, all that the ranges have earned is collected
/// after the arbitrage and deployed with what is idle; without an arbitrage nothing is.
#[verifier::rlimit(30)]
pub proof fn fees_are_recycled_where_asked(
    v: VaultView,
    p: PoolView,
    outside: Option<int>,
    fee: int,
    keep: bool,
)
    ensures
        arb_step(v, p, outside, fee, keep, true) matches Some((w, q, a)) ==> (arb_step(
            v,
            p,
            outside,
            fee,
            keep,
            false,
        ) matches Some((x, u, b)) ==> {
            &&& a.fired == b.fired && a.profit == b.profit && a.deviation == b.deviation
                && a.zero_for_one == b.zero_for_one
            &&& !a.fired ==> w == x && q == u
            &&& a.fired ==> (all_harvested(x, u) matches Some((y, r)) && deployed(y, r) == Some(
                (w, q),
            ))
        }),
{
    reveal(arb_step);
}

// ── recentering ──

/// Switched on, a recentering takes place at first and then whenever at least the interval
/// has passed, each of its seconds counting a thousand milliseconds. It sets the time of
/// the last one. Otherwise all stays as it is.
pub proof fn recentering_keeps_its_interval(s: Sim, cfg: Config, now: int, d: Deviation)
    ensures
        recenter_dispatched(s, cfg, now, d) matches Some(t) ==> {
            let c = cfg.slow_recenter;
            let due = c.enabled && (s.counts.last_recenter == 0 || now - s.counts.last_recenter
                >= 1000 * (c.trigger_interval_seconds as int));
            &&& !due ==> t == s
            &&& due ==> {
                &&& t.counts.last_recenter == now
                &&& (t.counts.recenter == s.counts.recenter || t.counts.recenter
                    == s.counts.recenter + 1)
                &&& t.counts == (Counts {
                    recenter: t.counts.recenter,
                    last_recenter: now,
                    ..s.counts
                })
                &&& recentered(
                    s.vault,
                    s.pool,
                    c.only_shift_oor,
                    c.redeploy_limit_at_current_tick,
                    d,
                ) matches Some((v, p, moved)) && t.vault == v && t.pool == p && (t.counts.recenter
                    > s.counts.recenter <==> moved > 0)
            }
        },
{
    reveal(recenter_dispatched);
}

/// With periods whose length divides the interval, recenterings that follow each other are
/// just the interval apart: after the one at a moment none is due for the next `n - 1`
/// periods, and one is due in the period after those, an interval later.
pub proof fn recenterings_are_an_interval_apart(c: SlowRecenterConfig, last: int, step: int, n: int, j: int)
    requires
        c.enabled,
        last != 0,
        step > 0,
        n > 0,
        n * step == 1000 * (c.trigger_interval_seconds as int),
        0 <= j,
    ensures
        j < n ==> !recenter_due(c, last, last + j * step),
        j >= n ==> recenter_due(c, last, last + j * step),
        recenter_due(c, last, last + 1000 * (c.trigger_interval_seconds as int)),
{
    if j < n {
        assert(j * step < n * step) by (nonlinear_arith)
            requires
                j < n,
                step > 0,
        ;
    } else {
        assert(j * step >= n * step) by (nonlinear_arith)
            requires
                j >= n,
                step > 0,
        ;
    }
}

} // verus!
