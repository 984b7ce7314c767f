//! The model of a simulation: how recorded events are replayed, and what one period does
//! to the vault and the pool.
use crate::arb::{detected, gap_closed};
use crate::config::{ActiveRebalanceMode, Config, SlowRecenterConfig, VaultParams};
use crate::debt_model::{debt_rebalanced, evened, regulated, standing_debt_rebalanced};
use crate::enums::EventType;
use crate::event_reader::EventView;
use crate::full_math::{ceil_mul_div, floor_mul_div};
use crate::lev_model::lev_run;
use crate::pool_model::{burned, minted, swap_end, swapped, PoolView};
use crate::position_manager::{position_at, position_key};
use crate::types::{abs, max_ratio, min_ratio};
use crate::vault::volatile_price;
use crate::vault_lev::lev_terms;
use crate::vault_math::{larger, one_wad, price_of, wadd, wsub};
use crate::vault_model::{
    all_harvested, collateral_ratio, deployed, deposited, emptied, net_value, no_bound, rebalanced,
    share_deviation, VaultView,
};
use crate::vault_recenter::{recentered, Deviation};
use vstd::prelude::*;

verus! {

// ── replaying events ──

pub open spec fn tick_or_zero(t: Option<i32>) -> int {
    match t {
        Some(x) => x as int,
        None => 0,
    }
}

/// A pool that a change was made to, or as it was where the change is not possible.
pub open spec fn or_same(p: PoolView, c: Option<(PoolView, int, int)>) -> PoolView {
    match c {
        Some((q, a0, a1)) => q,
        None => p,
    }
}

/// Liquidity added by an event. It goes to the sender where no recipient is given.
pub open spec fn mint_replayed(p: PoolView, e: EventView) -> PoolView {
    let who = if e.recipient.len() == 0 {
        e.msg_sender
    } else {
        e.recipient
    };
    if e.liquidity <= 0 {
        p
    } else {
        or_same(
            p,
            minted(p, who, tick_or_zero(e.tick_lower), tick_or_zero(e.tick_upper), e.liquidity),
        )
    }
}

/// Liquidity removed by an event: no more than the position has.
pub open spec fn burn_replayed(p: PoolView, e: EventView) -> PoolView {
    let lower = tick_or_zero(e.tick_lower);
    let upper = tick_or_zero(e.tick_upper);
    let has = position_at(p.positions, position_key(e.msg_sender, lower, upper)).liquidity;
    if e.liquidity <= 0 || has == 0 && has < e.liquidity {
        p
    } else if has < e.liquidity {
        or_same(p, burned(p, e.msg_sender, lower, upper, crate::arith::wrap_signed(has)))
    } else {
        or_same(p, burned(p, e.msg_sender, lower, upper, e.liquidity))
    }
}

/// The direction of a swap event: token 0 goes in where its amount is positive, or,
/// without one, where token 1 comes out.
pub open spec fn swap_direction(e: EventView) -> bool {
    if e.amount0 != 0 {
        e.amount0 > 0
    } else {
        e.amount1 < 0
    }
}

/// Whether the price that an event records lies ahead of the pool's.
pub open spec fn price_ahead(p: PoolView, zero_for_one: bool, price: Option<int>) -> bool {
    match price {
        Some(h) => if zero_for_one {
            min_ratio() < h < p.price
        } else {
            p.price < h < max_ratio()
        },
        None => false,
    }
}

/// The amount and the price limit with which a swap event is replayed: up to the
/// recorded price where that lies ahead, or else the recorded amount.
pub open spec fn swap_terms(p: PoolView, e: EventView) -> (int, int) {
    let down = swap_direction(e);
    if price_ahead(p, down, e.sqrt_price_x96) {
        (no_bound(), e.sqrt_price_x96->0)
    } else {
        let amount = match e.amount_specified {
            Some(a) => a,
            None => if down {
                e.amount0
            } else {
                e.amount1
            },
        };
        (
            if amount != 0 {
                amount
            } else {
                no_bound()
            },
            if down {
                min_ratio() + 1
            } else {
                max_ratio() - 1
            },
        )
    }
}

/// The pool after a swap that may fail.
pub open spec fn swap_or_same(p: PoolView, zero_for_one: bool, amount: int, limit: int) -> PoolView {
    match swap_end(p, zero_for_one, amount, Some(limit)) {
        Some(s) => swapped(p, zero_for_one, s),
        None => p,
    }
}

pub open spec fn has_no_ticks(p: PoolView) -> bool {
    forall|k: int| !p.ticks.dom().contains(k)
}

/// A swap of an event. A pool without ticks is left alone.
pub open spec fn swap_replayed(p: PoolView, e: EventView) -> PoolView {
    let (amount, limit) = swap_terms(p, e);
    if has_no_ticks(p) {
        p
    } else {
        swap_or_same(p, swap_direction(e), amount, limit)
    }
}

/// The pool after an event. One that is not possible changes nothing.
#[verifier::opaque]
pub open spec fn replayed(p: PoolView, e: EventView) -> PoolView {
    match e.event_type {
        EventType::Mint => mint_replayed(p, e),
        EventType::Burn => burn_replayed(p, e),
        EventType::Swap => swap_replayed(p, e),
    }
}

/// The pool after some events.
pub open spec fn all_replayed(p: PoolView, events: Seq<EventView>) -> PoolView
    decreases events.len(),
{
    if events.len() == 0 {
        p
    } else {
        replayed(all_replayed(p, events.drop_last()), events.last())
    }
}

/// How many events from a place on come before a moment, without one that does not.
pub open spec fn due_until(events: Seq<EventView>, from: int, moment: int) -> int
    decreases events.len() - from,
{
    if 0 <= from < events.len() && events[from].date_ms < moment {
        due_until(events, from + 1, moment)
    } else {
        from
    }
}

// ── setting up ──

/// The fee and the tick spacing of a simulation: those of an override, or those that are
/// recorded.
pub open spec fn fee_and_spacing(o: Option<u32>, fee: int, spacing: int) -> (int, int) {
    match o {
        Some(f) => (
            f as int,
            if f == 100 {
                1
            } else if f == 500 {
                10
            } else if f == 3000 {
                60
            } else {
                200
            },
        ),
        None => (fee, spacing),
    }
}

/// The pool moved to a price by a swap; as it is where there is no such price.
pub open spec fn positioned(p: PoolView, price: int) -> Option<PoolView> {
    let down = price < p.price;
    if price == 0 || price == p.price || (if down {
        price <= min_ratio()
    } else {
        price >= max_ratio()
    }) {
        Some(p)
    } else {
        match swap_end(p, down, no_bound(), Some(price)) {
            Some(s) => Some(swapped(p, down, s)),
            None => None,
        }
    }
}

/// The first deposit: a volatile amount, and stable tokens of the same value unless the
/// leverage market maker borrows them.
pub open spec fn first_deposit(volatile: int, sqrt: int, vol0: bool, lev: bool) -> Option<
    (int, int),
> {
    let stable = if lev {
        Some(0)
    } else {
        ceil_mul_div(volatile, volatile_price(vol0, price_of(sqrt)), one_wad())
    };
    match stable {
        Some(s) => if vol0 {
            Some((volatile, s))
        } else {
            Some((s, volatile))
        },
        None => None,
    }
}

/// The vault after the first deposit and, where debt is regulated without the leverage
/// market maker, after the first loan.
pub open spec fn opened(v: VaultView, p: PoolView, cfg: Config, a0: int, a1: int, tc: int) -> Option<
    (VaultView, PoolView),
> {
    match deposited(v, p, a0, a1) {
        Some((w, q)) => if !cfg.is_alm_only && cfg.is_regulate_debt && !cfg.lev_amm.enabled {
            debt_rebalanced(w, q, tc, cfg.dlv.swap_fee_ppm as int)
        } else {
            Some((w, q))
        },
        None => None,
    }
}

// ── the parts of a period ──

/// What the arbitrage of a period did.
#[verifier::ext_equal]
pub ghost struct ArbStep {
    pub deviation: int,
    pub zero_for_one: bool,
    pub fired: bool,
    pub profit: int,
    pub sqrt: int,
    pub nav: int,
    pub debt: int,
}

pub open spec fn no_arb() -> ArbStep {
    ArbStep { deviation: 0, zero_for_one: false, fired: false, profit: 0, sqrt: 0, nav: 0, debt: 0 }
}

/// Fees collected and put to work again.
pub open spec fn recycled(v: VaultView, p: PoolView, wanted: bool) -> Option<(VaultView, PoolView)> {
    if wanted {
        match all_harvested(v, p) {
            Some((w, q)) => deployed(w, q),
            None => None,
        }
    } else {
        Some((v, p))
    }
}

/// Arbitrage against an outside price. A profit is given to the vault unless that is
/// switched off, and the fees are put to work again if that is switched on.
#[verifier::opaque]
pub open spec fn arb_step(v: VaultView, p: PoolView, outside: Option<int>, fee: int, keep: bool, recycle: bool) -> Option<
    (VaultView, PoolView, ArbStep),
> {
    match outside {
        Some(x) => match detected(p.price, x, fee) {
            Some(d) => {
                let seen = ArbStep { deviation: d.deviation, zero_for_one: d.zero_for_one, ..no_arb() };
                if d.arbitrable {
                    match gap_closed(p, d, v.vol0()) {
                        Some((q, a0, a1, profit)) => {
                            let w = if profit > 0 && !keep {
                                v.plus_stable(abs(profit))
                            } else {
                                v
                            };
                            match recycled(w, q, recycle) {
                                Some((w2, q2)) => match net_value(w2, q2, None) {
                                    Some(nav) => Some(
                                        (
                                            w2,
                                            q2,
                                            ArbStep {
                                                fired: true,
                                                profit: abs(profit),
                                                sqrt: p.price,
                                                nav,
                                                debt: w2.debt,
                                                ..seen
                                            },
                                        ),
                                    ),
                                    None => None,
                                },
                                None => None,
                            }
                        },
                        None => None,
                    }
                } else {
                    Some((v, p, seen))
                }
            },
            None => None,
        },
        None => Some((v, p, no_arb())),
    }
}

/// What the leverage market maker of a period did.
#[verifier::ext_equal]
pub ghost struct LevStep {
    pub fired: bool,
    pub nav: int,
    pub debt: int,
}

/// The price that the leverage market maker uses: the outside one where the settings
/// say so, or else the pool's.
pub open spec fn lev_price(source: Seq<char>, outside: Option<int>) -> Option<int> {
    match outside {
        Some(x) => if source == "binance"@ && x != 0 {
            Some(x)
        } else {
            None
        },
        None => None,
    }
}

/// One step of the leverage market maker, if it is switched on.
#[verifier::opaque]
pub open spec fn lev_stepped(v: VaultView, p: PoolView, cfg: Config, tc: int, outside: Option<int>) -> Option<
    (VaultView, PoolView, LevStep),
> {
    if cfg.lev_amm.enabled {
        let o = lev_price(cfg.dlv.alm_swap_price_source@, outside);
        match lev_run(v, p, lev_terms(cfg.lev_amm), tc, o) {
            Some((w, q, (fee, fired))) => if fired {
                match net_value(w, q, None) {
                    Some(nav) => Some((w, q, LevStep { fired, nav, debt: w.debt })),
                    None => None,
                }
            } else {
                Some((w, q, LevStep { fired, nav: 0, debt: 0 }))
            },
            None => None,
        }
    } else {
        Some((v, p, LevStep { fired: false, nav: 0, debt: 0 }))
    }
}

/// Whether a recentering is due: at first, and then after each interval.
pub open spec fn recenter_due(c: SlowRecenterConfig, last: int, now: int) -> bool {
    c.enabled && (last == 0 || now - last >= c.trigger_interval_seconds * 1000)
}

/// Whether the debt may be rebalanced again.
pub open spec fn debt_rested(v: VaultView, period: Option<u64>, now: int) -> bool {
    match period {
        Some(s) => v.last_debt_rebalance == 0 || now - v.last_debt_rebalance >= s * 1000,
        None => true,
    }
}

/// Whether the ratio of value to debt has left the target by more than is allowed.
pub open spec fn ratio_off(cr: int, tc: int, above: Option<u128>, below: Option<u128>) -> bool {
    ||| match above {
        Some(a) => cr > wadd(tc, floor_mul_div(tc, a as int, one_wad())),
        None => false,
    }
    ||| match below {
        Some(b) => cr < wsub(tc, floor_mul_div(tc, b as int, one_wad())),
        None => false,
    }
}

/// The debt rebalanced where it is due and the ratio is off; also whether it was. With
/// the leverage market maker nothing changes, but it counts.
#[verifier::opaque]
pub open spec fn dlv_step(v: VaultView, p: PoolView, cfg: Config, tc: int, now: int) -> Option<
    (VaultView, PoolView, bool),
> {
    if v.debt == 0 || !debt_rested(v, cfg.dlv.period, now) {
        Some((v, p, false))
    } else {
        match collateral_ratio(v, p, None) {
            Some(cr) => if !ratio_off(
                cr,
                tc,
                cfg.dlv.deviation_above_wad,
                cfg.dlv.deviation_below_wad,
            ) {
                Some((v, p, false))
            } else if cfg.lev_amm.enabled {
                Some((v, p, true))
            } else {
                match standing_debt_rebalanced(v, p, tc, cfg.dlv.swap_fee_ppm as int) {
                    Some((w, q)) => Some(
                        (
                            VaultView { last_rebalance: now, last_debt_rebalance: now, ..w },
                            q,
                            true,
                        ),
                    ),
                    None => None,
                }
            },
            None => None,
        }
    }
}

/// Whether a number of periods has passed since the start; none where a period has no
/// length.
pub open spec fn time_up(cfg: Config, period: int, tick: int) -> Option<bool> {
    if cfg.lookup_period == 0 {
        None
    } else {
        let n = period / (cfg.lookup_period as int);
        Some(n > 0 && tick % n == 0)
    }
}

/// Whether the two sides of the holdings are too uneven.
pub open spec fn uneven(v: VaultView, p: PoolView, cfg: Config) -> Option<bool> {
    let bps = cfg.active_rebalance_ratio_deviation_bps;
    if cfg.active_rebalance_mode != ActiveRebalanceMode::Passive && bps > 0 {
        match share_deviation(v, p, None) {
            Some(d) => Some(d >= bps),
            None => None,
        }
    } else {
        Some(false)
    }
}

/// All ranges given up, the two sides evened out and all placed anew.
pub open spec fn rebuilt(v: VaultView, p: PoolView, fee: int) -> Option<(VaultView, PoolView)> {
    match emptied(v, p) {
        Some((w, q)) => match evened(w, price_of(q.price), fee) {
            Some(x) => rebalanced(x, q),
            None => None,
        },
        None => None,
    }
}

/// The holdings rebuilt where they are too uneven. After a number of periods only the
/// time of the last rebalance is set. Also whether one of the two was done.
#[verifier::opaque]
pub open spec fn alm_step(v: VaultView, p: PoolView, cfg: Config, now: int, tick: int) -> Option<
    (VaultView, PoolView, bool),
> {
    match (time_up(cfg, v.params.period as int, tick), uneven(v, p, cfg)) {
        (Some(time), Some(off)) => if off {
            match rebuilt(v, p, cfg.dlv.swap_fee_ppm as int) {
                Some((w, q)) => Some((VaultView { last_rebalance: now, ..w }, q, true)),
                None => None,
            }
        } else if time {
            Some((VaultView { last_rebalance: now, ..v }, p, true))
        } else {
            Some((v, p, false))
        },
        _ => None,
    }
}

/// The widths of the ranges set, where new ones are given.
pub open spec fn rewidened(v: VaultView, widths: Option<(i32, i32)>) -> Option<VaultView> {
    match widths {
        Some((base, limit)) => if 2 * v.spacing <= i32::MAX {
            Some(
                VaultView {
                    params: VaultParams {
                        base_threshold: larger(base as int, 2 * v.spacing) as i32,
                        limit_threshold: larger(limit as int, v.spacing) as i32,
                        ..v.params
                    },
                    ..v
                },
            )
        } else {
            None
        },
        None => Some(v),
    }
}

/// Fees collected, widths set and the debt regulated; also whether it was dealt with and
/// whether it changed. With the leverage market maker the debt is left to it.
#[verifier::opaque]
pub open spec fn regulate_step(
    v: VaultView,
    p: PoolView,
    cfg: Config,
    tc: int,
    widths: Option<(i32, i32)>,
) -> Option<(VaultView, PoolView, (bool, bool))> {
    if !cfg.is_regulate_debt || v.debt == 0 {
        Some((v, p, (false, false)))
    } else {
        match all_harvested(v, p) {
            Some((w, q)) => match rewidened(w, widths) {
                Some(x) => if cfg.lev_amm.enabled {
                    Some((x, q, (true, false)))
                } else {
                    match regulated(x, q, None, tc) {
                        Some((y, what)) => if what == "mint"@ {
                            match deployed(y, q) {
                                Some((z, u)) => Some((z, u, (true, true))),
                                None => None,
                            }
                        } else {
                            Some((y, q, (true, what != "noop"@)))
                        },
                        None => None,
                    }
                },
                None => None,
            },
            None => None,
        }
    }
}

// ── whole periods ──

/// How often each part has acted, when a part last did, how many events have been
/// replayed, and whether a snapshot is pending.
#[verifier::ext_equal]
pub ghost struct Counts {
    pub tick: int,
    pub alm: int,
    pub dlv: int,
    pub regulate: int,
    pub arb: int,
    pub lev: int,
    pub recenter: int,
    pub last_recenter: int,
    pub last_snapshot: int,
    pub cursor: int,
    pub pending: bool,
}

/// A simulation: a vault, its pool and the counts.
#[verifier::ext_equal]
pub ghost struct Sim {
    pub vault: VaultView,
    pub pool: PoolView,
    pub counts: Counts,
}

/// A count that goes up where something was done; none where it has no room left.
pub open spec fn counted(n: int, done: bool) -> Option<int> {
    if !done {
        Some(n)
    } else if n < u64::MAX {
        Some(n + 1)
    } else {
        None
    }
}

/// The window of time that is simulated: the one for arbitrage, or the one for events.
pub open spec fn window_of(cfg: Config) -> (int, int) {
    if cfg.is_arb_strategy {
        (cfg.arb.start_ms as int, cfg.arb.end_ms as int)
    } else {
        (cfg.start_ms as int, cfg.end_ms as int)
    }
}

/// The end of the window, with arbitrage no later than the last outside price.
pub open spec fn end_with_prices(cfg: Config, end: int, last_price: int) -> int {
    if cfg.is_arb_strategy && last_price < end {
        last_price
    } else {
        end
    }
}

/// Whether a period starts at a moment: before the end, while fewer than the maximum have
/// been started.
pub open spec fn period_starts(at: int, end: int, count: int, max: Option<int>) -> bool {
    at < end && (max matches Some(m) ==> count < m)
}

/// The moment of the first period.
pub open spec fn first_moment(start: int, end: int, max: Option<int>) -> Option<int> {
    if period_starts(start, end, 0, max) {
        Some(start)
    } else {
        None
    }
}

/// The moment of the period that follows the one at `at`, after `count` periods.
pub open spec fn next_moment(at: int, end: int, step: int, count: int, max: Option<int>) -> Option<
    int,
> {
    if period_starts(at + step, end, count, max) {
        Some(at + step)
    } else {
        None
    }
}

/// How many periods run from a moment on, `count` of them having run before.
pub open spec fn periods_from(at: Option<int>, end: int, step: int, count: int, max: Option<int>) -> nat
    decreases
            (match at {
                Some(t) => if t < end {
                    (end - t) as nat
                } else {
                    0
                },
                None => 0,
            }),
{
    match at {
        Some(t) => if step > 0 && t < end {
            1 + periods_from(next_moment(t, end, step, count + 1, max), end, step, count + 1, max)
        } else {
            0
        },
        None => 0,
    }
}

/// The first part of a period with arbitrage: the arbitrage itself, then the leverage
/// market maker.
pub open spec fn arb_opened(s: Sim, cfg: Config, tc: int, outside: Option<int>, fee: int) -> Option<
    (Sim, ArbStep, LevStep),
> {
    match arb_step(s.vault, s.pool, outside, fee, cfg.no_arb_donation, cfg.use_fee_recycling) {
        Some((v, p, a)) => match lev_stepped(v, p, cfg, tc, outside) {
            Some((w, q, l)) => match (
                counted(s.counts.arb, a.fired),
                counted(s.counts.lev, cfg.lev_amm.enabled),
            ) {
                (Some(arb), Some(lev)) => Some(
                    (Sim { vault: w, pool: q, counts: Counts { arb, lev, ..s.counts } }, a, l),
                ),
                _ => None,
            },
            None => None,
        },
        None => None,
    }
}

/// A recentering, where it is due.
#[verifier::opaque]
pub open spec fn recenter_dispatched(s: Sim, cfg: Config, now: int, d: Deviation) -> Option<Sim> {
    let c = cfg.slow_recenter;
    if recenter_due(c, s.counts.last_recenter, now) {
        match recentered(s.vault, s.pool, c.only_shift_oor, c.redeploy_limit_at_current_tick, d) {
            Some((v, p, moved)) => match counted(s.counts.recenter, moved > 0) {
                Some(recenter) => Some(
                    Sim {
                        vault: v,
                        pool: p,
                        counts: Counts { recenter, last_recenter: now, ..s.counts },
                    },
                ),
                None => None,
            },
            None => None,
        }
    } else {
        Some(s)
    }
}

/// Whether a part acted, the price before it and the net value after it.
#[verifier::ext_equal]
pub ghost struct Dispatch {
    pub fired: bool,
    pub sqrt: int,
    pub nav: int,
}

/// The debt of a period.
#[verifier::opaque]
pub open spec fn dlv_dispatched(s: Sim, cfg: Config, tc: int, now: int) -> Option<(Sim, Dispatch)> {
    match dlv_step(s.vault, s.pool, cfg, tc, now) {
        Some((v, p, fired)) => match (net_value(v, p, None), counted(s.counts.dlv, fired)) {
            (Some(nav), Some(dlv)) => Some(
                (
                    Sim { vault: v, pool: p, counts: Counts { dlv, ..s.counts } },
                    Dispatch { fired, sqrt: s.pool.price, nav },
                ),
            ),
            _ => None,
        },
        None => None,
    }
}

/// The holdings of a period.
#[verifier::opaque]
pub open spec fn alm_dispatched(s: Sim, cfg: Config, now: int) -> Option<(Sim, Dispatch)> {
    match alm_step(s.vault, s.pool, cfg, now, s.counts.tick) {
        Some((v, p, fired)) => match (net_value(v, p, None), counted(s.counts.alm, fired)) {
            (Some(nav), Some(alm)) => Some(
                (
                    Sim { vault: v, pool: p, counts: Counts { alm, ..s.counts } },
                    Dispatch { fired, sqrt: s.pool.price, nav },
                ),
            ),
            _ => None,
        },
        None => None,
    }
}

/// The regulation of the debt of a period; also whether it changed.
#[verifier::opaque]
pub open spec fn regulate_dispatched(s: Sim, cfg: Config, tc: int, widths: Option<(i32, i32)>) -> Option<
    (Sim, bool),
> {
    match regulate_step(s.vault, s.pool, cfg, tc, widths) {
        Some((v, p, (dealt, changed))) => match counted(s.counts.regulate, dealt) {
            Some(regulate) => Some(
                (Sim { vault: v, pool: p, counts: Counts { regulate, ..s.counts } }, changed),
            ),
            None => None,
        },
        None => None,
    }
}

/// The second part of a period with arbitrage: recentering, debt, holdings and, last, the
/// regulation of the debt.
pub open spec fn arb_closed(
    s: Sim,
    cfg: Config,
    tc: int,
    now: int,
    d: Deviation,
    widths: Option<(i32, i32)>,
) -> Option<(Sim, Dispatch, Dispatch, bool)> {
    match recenter_dispatched(s, cfg, now, d) {
        Some(s1) => match dlv_dispatched(s1, cfg, tc, now) {
            Some((s2, dlv)) => match alm_dispatched(s2, cfg, now) {
                Some((s3, alm)) => match regulate_dispatched(s3, cfg, tc, widths) {
                    Some((s4, changed)) => Some((s4, dlv, alm, changed)),
                    None => None,
                },
                None => None,
            },
            None => None,
        },
        None => None,
    }
}

/// The net value, the price of the volatile token and the ratio of value to debt, if
/// there is a debt.
pub ghost struct SnapView {
    pub nav: int,
    pub price: int,
    pub cr: Option<int>,
}

/// What the vault is worth.
#[verifier::opaque]
pub open spec fn snapped(v: VaultView, p: PoolView) -> Option<SnapView> {
    match (net_value(v, p, None), collateral_ratio(v, p, None)) {
        (Some(nav), Some(cr)) => Some(
            SnapView {
                nav,
                price: volatile_price(v.vol0(), price_of(p.price)),
                cr: if v.debt == 0 {
                    None
                } else {
                    Some(cr)
                },
            },
        ),
        _ => None,
    }
}

/// The events of a period replayed.
pub open spec fn events_dispatched(s: Sim, events: Seq<EventView>, until: int) -> Sim {
    let end = due_until(events, s.counts.cursor, until);
    Sim {
        pool: all_replayed(s.pool, events.subrange(s.counts.cursor, end)),
        counts: Counts { cursor: end, ..s.counts },
        ..s
    }
}

/// A period with recorded events: the regulation of the debt first, then debt and
/// holdings, then the events. A snapshot is pending after it where the debt was left
/// alone. Also what the vault was worth before the events.
pub open spec fn replay_period(
    s: Sim,
    cfg: Config,
    tc: int,
    now: int,
    widths: Option<(i32, i32)>,
    events: Seq<EventView>,
) -> Option<(Sim, Dispatch, Dispatch, bool, SnapView)> {
    match regulate_dispatched(s, cfg, tc, widths) {
        Some((s1, changed)) => match dlv_dispatched(s1, cfg, tc, now) {
            Some((s2, dlv)) => {
                let s3 = Sim { counts: Counts { pending: !dlv.fired, ..s2.counts }, ..s2 };
                match alm_dispatched(s3, cfg, now) {
                    Some((s4, alm)) => match snapped(s4.vault, s4.pool) {
                        Some(snap) => Some(
                            (
                                events_dispatched(s4, events, now + cfg.lookup_period * 1000),
                                dlv,
                                alm,
                                changed,
                                snap,
                            ),
                        ),
                        None => None,
                    },
                    None => None,
                }
            },
            None => None,
        },
        None => None,
    }
}

// ── what is recorded of a period ──

/// What an entry of the record comes from.
#[derive(Debug, Clone, Copy, PartialEq, Eq, Structural)]
pub enum EntrySource {
    Snap,
    Arb,
    LevAmm,
    Dlv,
    Alm,
}

/// A ratio of value to debt: as it was computed (none without a debt), or as a net value
/// and a debt.
pub ghost enum RatioView {
    Ratio(Option<int>),
    Parts(int, int),
}

/// A value of the vault in an entry: the net value, the price to divide it by, and the
/// ratio of value to debt.
pub ghost struct EntryView {
    pub source: EntrySource,
    pub nav: int,
    pub price: int,
    pub ratio: RatioView,
}

/// An entry where it applies and the price is not zero.
pub open spec fn entry_if(applies: bool, e: EntryView) -> Seq<EntryView> {
    if applies && e.price % crate::arith::p128() != 0 {
        seq![e]
    } else {
        seq![]
    }
}

/// Whether an hour has passed since the last snapshot.
pub open spec fn snapshot_due(last: int, now: int) -> bool {
    now - last >= 3_600_000
}

pub open spec fn snap_entry(nav: int, price: int, cr: Option<int>) -> EntryView {
    EntryView { source: EntrySource::Snap, nav, price, ratio: RatioView::Ratio(cr) }
}

/// The snapshot of the end of a period: by the values before the events, if there are
/// any with a price, or else by those after them.
pub open spec fn late_snap(applies: bool, before: Option<SnapView>, after: SnapView) -> Seq<
    EntryView,
> {
    match before {
        Some(b) => if b.price % crate::arith::p128() != 0 {
            entry_if(applies, snap_entry(b.nav, b.price, b.cr))
        } else {
            entry_if(applies, snap_entry(after.nav, after.price, b.cr))
        },
        None => entry_if(applies, snap_entry(after.nav, after.price, after.cr)),
    }
}

/// The entries of a period, in order. A snapshot that is due comes first, by the values
/// at the start, where it was pending and the debt was not changed; otherwise last.
pub open spec fn period_entries(
    vol0: bool,
    due: bool,
    early: bool,
    start: SnapView,
    arb: ArbStep,
    lev: LevStep,
    dlv: Dispatch,
    alm: Dispatch,
    before: Option<SnapView>,
    after: SnapView,
) -> Seq<EntryView> {
    entry_if(due && early, snap_entry(start.nav, start.price, start.cr)) + entry_if(
        arb.fired,
        EntryView {
            source: EntrySource::Arb,
            nav: arb.nav,
            price: volatile_price(vol0, price_of(arb.sqrt)),
            ratio: RatioView::Parts(arb.nav, arb.debt),
        },
    ) + entry_if(
        lev.fired,
        EntryView {
            source: EntrySource::LevAmm,
            nav: lev.nav,
            price: after.price,
            ratio: RatioView::Parts(lev.nav, lev.debt),
        },
    ) + entry_if(
        dlv.fired,
        EntryView {
            source: EntrySource::Dlv,
            nav: dlv.nav,
            price: volatile_price(vol0, price_of(dlv.sqrt)),
            ratio: RatioView::Ratio(after.cr),
        },
    ) + entry_if(
        alm.fired,
        EntryView {
            source: EntrySource::Alm,
            nav: alm.nav,
            price: volatile_price(vol0, price_of(alm.sqrt)),
            ratio: RatioView::Ratio(after.cr),
        },
    ) + late_snap(due && !early, before, after)
}

} // verus!
