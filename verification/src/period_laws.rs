//! What the parts of a period are for: when each of them acts, what it may change and what
//! is recorded of it.
use crate::arith::{p128, p255, p256};
use crate::config::{ActiveRebalanceMode, Config};
use crate::debt_laws::{p100, small};
use crate::debt_model::{debt_rebalanced, evened, regulated};
use crate::enums::EventType;
use crate::event_reader::EventView;
use crate::full_math::floor_mul_div;
use crate::pool_laws::swap_within_bounds;
use crate::pool_model::{pool_valid, swap_end, swapped, PoolView};
use crate::strategy_laws::event_fits;
use crate::strategy_model::{
    all_replayed, alm_dispatched, alm_step, arb_closed, arb_opened, arb_step, dlv_dispatched,
    dlv_step, due_until, entry_if, first_deposit, late_snap, lev_stepped, opened, period_entries,
    positioned, rebuilt, recenter_dispatched, regulate_dispatched, regulate_step, replay_period,
    replayed, rewidened, snap_entry, snapped, swap_terms, ArbStep, Counts, Dispatch, EntrySource,
    EntryView, LevStep, RatioView, Sim, SnapView,
};
use crate::types::{max_ratio, min_ratio};
use crate::vault::volatile_price;
use crate::vault_laws::{
    deploy_moves_holdings, harvest_moves_holdings, only_holdings_differ, rebalance_moves_holdings,
    withdrawal_moves_holdings,
};
use crate::vault_math::{by_role, one_wad, price_of, smaller, to_stable, wadd, wmul, wsub};
use crate::vault_model::{
    all_harvested, collateral_ratio, deposited, emptied, harvested, net_value, price_or,
    share_deviation, totals, VaultView,
};
use crate::vault_recenter::Deviation;
use vstd::prelude::*;

verus! {

// ── recorded swaps ──

/// A recorded swap moves the price the way its amounts say: down where token 0 came in,
/// up where it went out; where it records none of token 0, down where token 1 went out and
/// up otherwise. It leaves all positions alone, and a recorded price that lies ahead is not
/// passed.
pub proof fn replayed_swap_goes_its_way(p: PoolView, e: EventView)
    requires
        pool_valid(p),
        p.price != 0,
        event_fits(e),
        e.event_type == EventType::Swap,
    ensures
        ({
            let q = replayed(p, e);
            let down = e.amount0 > 0 || (e.amount0 == 0 && e.amount1 < 0);
            &&& down ==> q.price <= p.price
            &&& !down ==> q.price >= p.price
            &&& e.sqrt_price_x96 matches Some(h) ==> {
                &&& down && min_ratio() < h < p.price ==> q.price >= h
                &&& !down && p.price < h < max_ratio() ==> q.price <= h
            }
            &&& q.positions == p.positions
            &&& q.balance0 == p.balance0 && q.balance1 == p.balance1
        }),
{
    reveal(replayed);
    let down = e.amount0 > 0 || (e.amount0 == 0 && e.amount1 < 0);
    let (amount, limit) = swap_terms(p, e);
    if swap_end(p, down, amount, Some(limit)) is Some {
        swap_within_bounds(p, down, amount, Some(limit));
    }
}

/// A recorded swap up to a price that lies ahead is offered all that such a swap may take;
/// without such a price, the amount that is recorded, or, if none is, what came in of the
/// one token or went out of the other.
#[verifier::rlimit(30)]
pub proof fn replayed_swap_is_offered_its_amount(p: PoolView, e: EventView)
    requires
        e.event_type == EventType::Swap,
        exists|k: int| p.ticks.dom().contains(k),
    ensures
        ({
            let down = e.amount0 > 0 || (e.amount0 == 0 && e.amount1 < 0);
            let recorded = match e.amount_specified {
                Some(a) => a,
                None => if down {
                    e.amount0
                } else {
                    e.amount1
                },
            };
            let most = 0x7fff_ffff_ffff_ffff_ffff_ffff_ffff_ffffint;
            let ahead = e.sqrt_price_x96 matches Some(h) && (if down {
                min_ratio() < h < p.price
            } else {
                p.price < h < max_ratio()
            });
            let end = if ahead {
                swap_end(p, down, most, Some(e.sqrt_price_x96->0))
            } else if recorded == 0 {
                swap_end(
                    p,
                    down,
                    most,
                    Some(if down {
                        min_ratio() + 1
                    } else {
                        max_ratio() - 1
                    }),
                )
            } else {
                swap_end(
                    p,
                    down,
                    recorded,
                    Some(if down {
                        min_ratio() + 1
                    } else {
                        max_ratio() - 1
                    }),
                )
            };
            match end {
                Some(s) => replayed(p, e) == swapped(p, down, s),
                None => replayed(p, e) == p,
            }
        }),
{
    reveal(replayed);
}

// ── when events are due ──

/// The events of a stretch of time are those before its end: all up to the first one that
/// is not before it, and not that one.
pub proof fn events_are_due_before_moment(events: Seq<EventView>, from: int, moment: int)
    requires
        0 <= from <= events.len(),
    ensures
        ({
            let r = due_until(events, from, moment);
            &&& from <= r <= events.len()
            &&& forall|i: int| from <= i < r ==> (#[trigger] events[i]).date_ms < moment
            &&& r < events.len() ==> events[r].date_ms >= moment
        }),
    decreases events.len() - from,
{
    if from < events.len() && events[from].date_ms < moment {
        events_are_due_before_moment(events, from + 1, moment);
    }
}

/// A period with recorded events replays, after all else, the events before the next
/// period: those within as many thousand milliseconds as the period has seconds. It goes on
/// from where the one before it stopped.
#[verifier::rlimit(30)]
pub proof fn period_replays_its_events(
    s: Sim,
    cfg: Config,
    tc: int,
    now: int,
    widths: Option<(i32, i32)>,
    events: Seq<EventView>,
)
    requires
        0 <= s.counts.cursor <= events.len(),
    ensures
        replay_period(s, cfg, tc, now, widths, events) matches Some((t, d, a, changed, snap)) ==> {
            let end = t.counts.cursor;
            let next = now + 1000 * (cfg.lookup_period as int);
            &&& s.counts.cursor <= end <= events.len()
            &&& forall|i: int| s.counts.cursor <= i < end ==> (#[trigger] events[i]).date_ms < next
            &&& end < events.len() ==> events[end].date_ms >= next
            &&& t.counts.pending == !d.fired
            &&& t.counts.tick == s.counts.tick
            &&& t.counts.arb == s.counts.arb
            &&& t.counts.lev == s.counts.lev
            &&& t.counts.recenter == s.counts.recenter
            &&& t.counts.last_recenter == s.counts.last_recenter
            &&& t.counts.last_snapshot == s.counts.last_snapshot
            &&& t.counts.dlv == s.counts.dlv + (if d.fired {
                1int
            } else {
                0
            })
            &&& t.counts.alm == s.counts.alm + (if a.fired {
                1int
            } else {
                0
            })
            &&& net_value(t.vault, all_replayed_before(s, cfg, tc, now, widths), None) == Some(
                snap.nav,
            )
            &&& t.pool == all_replayed(
                all_replayed_before(s, cfg, tc, now, widths),
                events.subrange(s.counts.cursor, end),
            )
        },
{
    reveal(snapped);
    events_are_due_before_moment(events, s.counts.cursor, now + cfg.lookup_period * 1000);
    regulate_part(s, cfg, tc, widths);
    if let Some((s1, changed)) = regulate_dispatched(s, cfg, tc, widths) {
        dlv_part(s1, cfg, tc, now);
        if let Some((s2, dlv)) = dlv_dispatched(s1, cfg, tc, now) {
            let s3 = Sim { counts: Counts { pending: !dlv.fired, ..s2.counts }, ..s2 };
            alm_part(s3, cfg, now);
        }
    }
}

/// The pool of a period before its events are replayed.
pub open spec fn all_replayed_before(
    s: Sim,
    cfg: Config,
    tc: int,
    now: int,
    widths: Option<(i32, i32)>,
) -> PoolView {
    let (s1, changed) = regulate_dispatched(s, cfg, tc, widths)->0;
    let (s2, dlv) = dlv_dispatched(s1, cfg, tc, now)->0;
    let s3 = Sim { counts: Counts { pending: !dlv.fired, ..s2.counts }, ..s2 };
    let (s4, alm) = alm_dispatched(s3, cfg, now)->0;
    s4.pool
}

// ── setting up ──

/// A pool that is moved to a price goes there and never past it: it ends there, or, for want
/// of liquidity, with all used that such a swap is offered. One that is there already is
/// left alone, and so is one for which the price is none.
pub proof fn pool_is_moved_to_price(p: PoolView, price: int)
    requires
        pool_valid(p),
        p.price != 0,
    ensures
        price == 0 || price == p.price ==> positioned(p, price) == Some(p),
        min_ratio() < price < max_ratio() && price != p.price ==> (positioned(p, price) matches Some(
            q,
        ) ==> {
            &&& price < p.price ==> price <= q.price <= p.price
            &&& price > p.price ==> p.price <= q.price <= price
            &&& q.positions == p.positions
            &&& q.price == price || swap_end(
                p,
                price < p.price,
                0x7fff_ffff_ffff_ffff_ffff_ffff_ffff_ffff,
                Some(price),
            )->0.remaining == 0
        }),
{
    if min_ratio() < price < max_ratio() && price != p.price {
        if positioned(p, price) is Some {
            swap_within_bounds(
                p,
                price < p.price,
                0x7fff_ffff_ffff_ffff_ffff_ffff_ffff_ffff,
                Some(price),
            );
        }
    }
}

/// The first deposit is the volatile amount and, unless the leverage market maker borrows
/// them, stable tokens of the same value, rounded up: each in the place of its token.
pub proof fn first_deposit_is_even(volatile: int, sqrt: int, vol0: bool, lev: bool)
    requires
        0 <= volatile,
        0 <= volatile_price(vol0, price_of(sqrt)),
        volatile * volatile_price(vol0, price_of(sqrt)) < p255(),
    ensures
        first_deposit(volatile, sqrt, vol0, lev) matches Some((a0, a1)) && ({
            let (v, s) = if vol0 {
                (a0, a1)
            } else {
                (a1, a0)
            };
            let value = volatile * volatile_price(vol0, price_of(sqrt));
            &&& v == volatile
            &&& lev ==> s == 0
            &&& !lev ==> s * 1_000_000_000_000_000_000 >= value && (s - 1)
                * 1_000_000_000_000_000_000 < value
        }),
{
    let price = volatile_price(vol0, price_of(sqrt));
    if !lev {
        crate::full_math::ceil_mul_div_bracket(volatile, price, one_wad());
    }
}

/// Opening a vault places the deposit. It takes a loan only where debt is regulated, not for
/// holdings alone and not where the leverage market maker does it; then it rebalances the
/// debt to the target with the fee of the settings.
#[verifier::rlimit(30)]
pub proof fn opening_borrows_where_called_for(
    v: VaultView,
    p: PoolView,
    cfg: Config,
    a0: int,
    a1: int,
    tc: int,
)
    ensures
        opened(v, p, cfg, a0, a1, tc) matches Some((w, q)) ==> {
            &&& deposited(v, p, a0, a1) is Some
            &&& cfg.is_alm_only || !cfg.is_regulate_debt || cfg.lev_amm.enabled ==> w.debt == v.debt
            &&& !cfg.is_alm_only && cfg.is_regulate_debt && !cfg.lev_amm.enabled ==> ({
                let (x, u) = deposited(v, p, a0, a1)->0;
                debt_rebalanced(x, u, tc, cfg.dlv.swap_fee_ppm as int) == Some((w, q)) && x.debt
                    == v.debt
            })
        },
{
    let supply = if v.supply == 0 {
        crate::vault_model::first_supply(a0, a1)
    } else {
        v.supply
    };
    rebalance_moves_holdings(VaultView { supply, ..v }.plus_idle(a0, a1), p);
}

// ── the debt ──

proof fn above_by(cr: int, tc: int, a: int)
    requires
        0 <= tc < p100(),
        0 <= a < p128(),
    ensures
        cr > wadd(tc, floor_mul_div(tc, a, one_wad())) <==> (cr - tc) * one_wad() > tc * a,
{
    let n = tc * a;
    assert(0 <= n < p100() * p128()) by (nonlinear_arith)
        requires
            n == tc * a,
            0 <= tc < p100(),
            0 <= a < p128(),
    ;
    crate::arith::div_facts(n, one_wad());
    vstd::arithmetic::div_mod::lemma_small_mod(
        (n / one_wad()) as nat,
        crate::arith::p256() as nat,
    );
    vstd::arithmetic::div_mod::lemma_small_mod(
        (tc + n / one_wad()) as nat,
        crate::arith::p256() as nat,
    );
}

proof fn below_by(cr: int, tc: int, b: int)
    requires
        0 <= tc < p100(),
        0 <= b <= one_wad(),
    ensures
        cr < wsub(tc, floor_mul_div(tc, b, one_wad())) <==> (tc - cr) * one_wad() > tc * b,
{
    let n = tc * b;
    assert(0 <= n <= tc * one_wad()) by (nonlinear_arith)
        requires
            n == tc * b,
            0 <= tc,
            0 <= b <= one_wad(),
    ;
    crate::arith::div_facts(n, one_wad());
    vstd::arithmetic::div_mod::lemma_small_mod(
        (n / one_wad()) as nat,
        crate::arith::p256() as nat,
    );
    vstd::arithmetic::div_mod::lemma_small_mod(
        (tc - n / one_wad()) as nat,
        crate::arith::p256() as nat,
    );
}

/// The debt is dealt with where there is one, where as many thousand milliseconds as its
/// period has seconds have passed since it last was (at first, and without a period, at
/// once), and where the ratio of value to debt is off the target by more than the allowed
/// part of it, above or below. Then it is rebalanced to the target with the fee of the
/// settings and the time is set; where the leverage market maker runs, it is left to that.
/// Otherwise nothing changes.
#[verifier::rlimit(30)]
pub proof fn debt_is_rebalanced_when_due(v: VaultView, p: PoolView, cfg: Config, tc: int, now: int)
    requires
        0 <= tc < p100(),
        cfg.dlv.deviation_below_wad matches Some(b) ==> b <= 1_000_000_000_000_000_000,
    ensures
        dlv_step(v, p, cfg, tc, now) matches Some((w, q, fired)) ==> {
            let rested = match cfg.dlv.period {
                Some(s) => v.last_debt_rebalance == 0 || now - v.last_debt_rebalance >= 1000 * s,
                None => true,
            };
            let cr = collateral_ratio(v, p, None)->0;
            let off = (cfg.dlv.deviation_above_wad matches Some(a) && (cr - tc)
                * 1_000_000_000_000_000_000 > tc * a) || (
            cfg.dlv.deviation_below_wad matches Some(b) && (tc - cr) * 1_000_000_000_000_000_000
                > tc * b);
            &&& fired == (v.debt != 0 && rested && off)
            &&& !fired || cfg.lev_amm.enabled ==> w == v && q == p
            &&& fired && !cfg.lev_amm.enabled ==> ({
                let (x, u) = debt_rebalanced(v, p, tc, cfg.dlv.swap_fee_ppm as int)->0;
                &&& debt_rebalanced(v, p, tc, cfg.dlv.swap_fee_ppm as int) is Some
                &&& w.last_debt_rebalance == now
                &&& w.last_rebalance == now
                &&& w.debt == x.debt
                &&& w == (VaultView { last_rebalance: now, last_debt_rebalance: now, ..x })
                &&& q == u
            })
        },
{
    reveal(dlv_step);
    if v.debt != 0 {
        if let Some(cr) = collateral_ratio(v, p, None) {
            if let Some(a) = cfg.dlv.deviation_above_wad {
                above_by(cr, tc, a as int);
            }
            if let Some(b) = cfg.dlv.deviation_below_wad {
                below_by(cr, tc, b as int);
            }
        }
    }
}

// ── the holdings ──

/// The holdings are rebuilt where active rebalancing is not passive, a deviation is set and
/// the stable share is off one half by at least that. Otherwise, at every period whose
/// number is a multiple of how many periods fit into the vault's own, only the time is set.
/// Neither touches debt, shares or settings. Otherwise nothing changes.
#[verifier::rlimit(30)]
pub proof fn holdings_are_rebuilt_when_uneven(
    v: VaultView,
    p: PoolView,
    cfg: Config,
    now: int,
    tick: int,
)
    ensures
        alm_step(v, p, cfg, now, tick) matches Some((w, q, fired)) ==> {
            let every = v.params.period as int / (cfg.lookup_period as int);
            let uneven = cfg.active_rebalance_mode != ActiveRebalanceMode::Passive
                && cfg.active_rebalance_ratio_deviation_bps > 0 && share_deviation(v, p, None)->0
                >= cfg.active_rebalance_ratio_deviation_bps;
            let timed = every > 0 && tick % every == 0;
            &&& cfg.lookup_period != 0
            &&& fired == (uneven || timed)
            &&& fired ==> w.last_rebalance == now
            &&& only_holdings_differ(VaultView { last_rebalance: w.last_rebalance, ..v }, w)
            &&& !uneven ==> q == p && w == (VaultView { last_rebalance: w.last_rebalance, ..v })
            &&& !fired ==> w == v
            &&& uneven ==> (rebuilt(v, p, cfg.dlv.swap_fee_ppm as int) matches Some((x, u)) && u == q
                && w == (VaultView { last_rebalance: now, ..x }))
        },
{
    reveal(alm_step);
    let fee = cfg.dlv.swap_fee_ppm as int;
    withdrawal_moves_holdings(v, p);
    if let Some((w, q)) = emptied(v, p) {
        if let Some(x) = evened(w, price_of(q.price), fee) {
            rebalance_moves_holdings(x, q);
        }
    }
}

// ── regulation ──

/// Regulation acts where it is switched on and there is a debt. Widths that are given are
/// set, but the base range is no narrower than two spacings and the limit range no narrower
/// than one. With the leverage market maker the debt stays as it is; otherwise a change is
/// told just where the debt has changed.
#[verifier::rlimit(30)]
pub proof fn regulation_sets_widths(
    v: VaultView,
    p: PoolView,
    cfg: Config,
    tc: int,
    widths: Option<(i32, i32)>,
)
    requires
        0 < v.spacing <= i32::MAX,
        0 <= v.debt < p256(),
        0 <= v.idle0 < p256(),
        0 <= v.idle1 < p256(),
    ensures
        regulate_step(v, p, cfg, tc, widths) matches Some((w, q, (dealt, changed))) ==> {
            &&& dealt == (cfg.is_regulate_debt && v.debt != 0)
            &&& !dealt ==> w == v && q == p && !changed
            &&& changed == (w.debt != v.debt)
            &&& cfg.lev_amm.enabled ==> !changed
            &&& dealt ==> (match widths {
                Some((base, limit)) => {
                    &&& w.params.base_threshold == (if base < 2 * v.spacing {
                        2 * v.spacing
                    } else {
                        base as int
                    })
                    &&& w.params.limit_threshold == (if limit < v.spacing {
                        v.spacing
                    } else {
                        limit as int
                    })
                    &&& w.params.wide_threshold == v.params.wide_threshold
                    &&& w.params.wide_range_weight == v.params.wide_range_weight
                    &&& w.params.period == v.params.period
                },
                None => w.params == v.params,
            })
            &&& q.price == p.price
            &&& w.supply == v.supply
        },
{
    reveal(regulate_step);
    harvest_moves_holdings(v, p);
    harvest_keeps_idle_small(v, p);
    if cfg.is_regulate_debt && v.debt != 0 {
        if let Some((w, q)) = all_harvested(v, p) {
            if let Some(x) = rewidened(w, widths) {
                regulation_tells_change(x, q, tc);
                if let Some((y, what)) = regulated(x, q, None, tc) {
                    deploy_moves_holdings(y, q);
                }
            }
        }
    }
}

proof fn harvest_keeps_idle_small(v: VaultView, p: PoolView)
    requires
        0 <= v.idle0 < p256(),
        0 <= v.idle1 < p256(),
    ensures
        all_harvested(v, p) matches Some((w, q)) ==> 0 <= w.idle0 < p256() && 0 <= w.idle1 < p256(),
{
    reveal(harvested);
}

/// What is said to be done is done: the debt changes where it is not said to stay.
#[verifier::rlimit(30)]
proof fn regulation_tells_change(v: VaultView, p: PoolView, tc: int)
    requires
        0 <= v.debt < p256(),
        0 <= v.idle0 < p256(),
        0 <= v.idle1 < p256(),
    ensures
        regulated(v, p, None, tc) matches Some((w, what)) ==> {
            &&& (what == "noop"@) == (w.debt == v.debt)
            &&& what == "mint"@ ==> w.debt != v.debt
            &&& what == "mint"@ || what == "burn"@ || what == "noop"@
            &&& w.params == v.params && w.supply == v.supply && w.spacing == v.spacing
        },
{
    reveal_strlit("mint");
    reveal_strlit("burn");
    reveal_strlit("noop");
    assert("mint"@[0] == 'm' && "burn"@[0] == 'b' && "noop"@[0] == 'n');
    if v.debt != 0 && tc > one_wad() {
        if let Some((t0, t1)) = totals(v, p, false) {
            let price = price_of(price_or(p, None));
            let (volatile, stable) = by_role(v.vol0(), t0, t1);
            let value = to_stable(v.vol0(), volatile, price);
            let have = wmul(wadd(stable, value), one_wad());
            let want = wmul(tc, v.debt);
            if have > want {
                vstd::arithmetic::div_mod::lemma_div_pos_is_pos(have - want, tc - one_wad());
                let a = smaller(value - stable, (have - want) / (tc - one_wad()));
                if value > stable && a != 0 {
                    sum_differs(v.debt, a);
                }
            } else if want > have {
                vstd::arithmetic::div_mod::lemma_div_pos_is_pos(want - have, tc - one_wad());
                let a = smaller(
                    smaller(smaller(stable - value, (want - have) / (tc - one_wad())), v.debt),
                    v.stable_idle(),
                );
                if stable > value && a != 0 {
                    small(v.debt - a);
                }
            }
        }
    }
}

/// A sum modulo 2^256 with a part that is not a multiple of that differs from the other.
proof fn sum_differs(x: int, a: int)
    requires
        0 <= x < p256(),
        0 < a < p256(),
    ensures
        wadd(x, a) != x,
{
    if x + a < p256() {
        small(x + a);
    } else {
        crate::arith::congruent(x + a, x + a - p256(), 1);
        small(x + a - p256());
    }
}

// ── what a period counts ──

/// The first part of a period with arbitrage: the leverage market maker runs on what the
/// arbitrage left. An arbitrage that took place is counted, and every run of the market
/// maker that is switched on.
pub proof fn first_part_counts(s: Sim, cfg: Config, tc: int, outside: Option<int>, fee: int)
    ensures
        arb_opened(s, cfg, tc, outside, fee) matches Some((t, a, l)) ==> {
            let (v, p, b) = arb_step(
                s.vault,
                s.pool,
                outside,
                fee,
                cfg.no_arb_donation,
                cfg.use_fee_recycling,
            )->0;
            &&& a == b
            &&& lev_stepped(v, p, cfg, tc, outside) == Some((t.vault, t.pool, l))
            &&& t.counts == (Counts {
                arb: s.counts.arb + (if a.fired {
                    1int
                } else {
                    0
                }),
                lev: s.counts.lev + (if cfg.lev_amm.enabled {
                    1int
                } else {
                    0
                }),
                ..s.counts
            })
        },
{
}

proof fn dlv_part(s: Sim, cfg: Config, tc: int, now: int)
    ensures
        dlv_dispatched(s, cfg, tc, now) matches Some((t, d)) ==> (dlv_step(
            s.vault,
            s.pool,
            cfg,
            tc,
            now,
        ) matches Some((v, p, f)) && t.vault == v && t.pool == p && d.fired == f && d.sqrt
            == s.pool.price && net_value(v, p, None) == Some(d.nav) && t.counts == (Counts {
            dlv: s.counts.dlv + (if f {
                1int
            } else {
                0
            }),
            ..s.counts
        })),
{
    reveal(dlv_dispatched);
}

proof fn alm_part(s: Sim, cfg: Config, now: int)
    ensures
        alm_dispatched(s, cfg, now) matches Some((t, d)) ==> (alm_step(
            s.vault,
            s.pool,
            cfg,
            now,
            s.counts.tick,
        ) matches Some((v, p, f)) && t.vault == v && t.pool == p && d.fired == f && d.sqrt
            == s.pool.price && net_value(v, p, None) == Some(d.nav) && t.counts == (Counts {
            alm: s.counts.alm + (if f {
                1int
            } else {
                0
            }),
            ..s.counts
        })),
{
    reveal(alm_dispatched);
}

proof fn regulate_part(s: Sim, cfg: Config, tc: int, widths: Option<(i32, i32)>)
    ensures
        regulate_dispatched(s, cfg, tc, widths) matches Some((t, changed)) ==> (regulate_step(
            s.vault,
            s.pool,
            cfg,
            tc,
            widths,
        ) matches Some((v, p, (dealt, c))) && t.vault == v && t.pool == p && changed == c && t.counts
            == (Counts {
            regulate: s.counts.regulate + (if dealt {
                1int
            } else {
                0
            }),
            ..s.counts
        })),
{
    reveal(regulate_dispatched);
}

proof fn recenter_part(s: Sim, cfg: Config, now: int, d: Deviation)
    ensures
        recenter_dispatched(s, cfg, now, d) matches Some(t) ==> t.counts == (Counts {
            recenter: t.counts.recenter,
            last_recenter: t.counts.last_recenter,
            ..s.counts
        }),
{
    reveal(recenter_dispatched);
}

/// The second part of a period with arbitrage: recentering first, then the debt, then the
/// holdings, last the regulation; each on what the one before it left. What acted is
/// counted.
#[verifier::rlimit(30)]
pub proof fn second_part_counts(
    s: Sim,
    cfg: Config,
    tc: int,
    now: int,
    d: Deviation,
    widths: Option<(i32, i32)>,
)
    ensures
        arb_closed(s, cfg, tc, now, d, widths) matches Some((t, dlv, alm, changed)) ==> {
            let r = recenter_dispatched(s, cfg, now, d)->0;
            let (v1, p1, f1) = dlv_step(r.vault, r.pool, cfg, tc, now)->0;
            let (v2, p2, f2) = alm_step(v1, p1, cfg, now, s.counts.tick)->0;
            let (v3, p3, (dealt, c)) = regulate_step(v2, p2, cfg, tc, widths)->0;
            &&& t.vault == v3
            &&& t.pool == p3
            &&& changed == c
            &&& dlv.fired == f1
            &&& dlv.sqrt == r.pool.price
            &&& net_value(v1, p1, None) == Some(dlv.nav)
            &&& alm.fired == f2
            &&& alm.sqrt == p1.price
            &&& net_value(v2, p2, None) == Some(alm.nav)
            &&& t.counts == (Counts {
                dlv: s.counts.dlv + (if f1 {
                    1int
                } else {
                    0
                }),
                alm: s.counts.alm + (if f2 {
                    1int
                } else {
                    0
                }),
                regulate: s.counts.regulate + (if dealt {
                    1int
                } else {
                    0
                }),
                recenter: r.counts.recenter,
                last_recenter: r.counts.last_recenter,
                ..s.counts
            })
        },
{
    recenter_part(s, cfg, now, d);
    if let Some(r) = recenter_dispatched(s, cfg, now, d) {
        dlv_part(r, cfg, tc, now);
        if let Some((s2, dlv)) = dlv_dispatched(r, cfg, tc, now) {
            alm_part(s2, cfg, now);
            if let Some((s3, alm)) = alm_dispatched(s2, cfg, now) {
                regulate_part(s3, cfg, tc, widths);
            }
        }
    }
}

// ── what is recorded ──

/// An entry that tells what its source did: the net value after it and the ratio of value to
/// debt, with the price at which it was taken. A snapshot tells the values at the start where
/// it comes early, and else those before the events, or those after them where there were
/// none.
pub open spec fn tells_its_source(
    e: EntryView,
    vol0: bool,
    due: bool,
    early: bool,
    start: SnapView,
    arb: ArbStep,
    lev: LevStep,
    dlv: Dispatch,
    alm: Dispatch,
    before: Option<SnapView>,
    after: SnapView,
) -> bool {
    &&& e.price % 0x1_0000_0000_0000_0000_0000_0000_0000_0000int != 0
    &&& match e.source {
        EntrySource::Snap => {
            &&& due
            &&& early ==> e.nav == start.nav && e.price == start.price && e.ratio
                == RatioView::Ratio(start.cr)
            &&& !early && before is None ==> e.nav == after.nav && e.price == after.price && e.ratio
                == RatioView::Ratio(after.cr)
            &&& !early ==> (before matches Some(b) ==> e.ratio == RatioView::Ratio(b.cr) && (b.price
                % 0x1_0000_0000_0000_0000_0000_0000_0000_0000int != 0 ==> e.nav == b.nav && e.price
                == b.price))
        },
        EntrySource::Arb => arb.fired && e.nav == arb.nav && e.price == volatile_price(
            vol0,
            price_of(arb.sqrt),
        ) && e.ratio == RatioView::Parts(arb.nav, arb.debt),
        EntrySource::LevAmm => lev.fired && e.nav == lev.nav && e.price == after.price && e.ratio
            == RatioView::Parts(lev.nav, lev.debt),
        EntrySource::Dlv => dlv.fired && e.nav == dlv.nav && e.price == volatile_price(
            vol0,
            price_of(dlv.sqrt),
        ) && e.ratio == RatioView::Ratio(after.cr),
        EntrySource::Alm => alm.fired && e.nav == alm.nav && e.price == volatile_price(
            vol0,
            price_of(alm.sqrt),
        ) && e.ratio == RatioView::Ratio(after.cr),
    }
}

/// What holds of all entries of two sequences holds of all entries of both in one.
proof fn holds_of_sum(a: Seq<EntryView>, b: Seq<EntryView>, good: spec_fn(EntryView) -> bool)
    requires
        forall|i: int| 0 <= i < a.len() ==> good(#[trigger] a[i]),
        forall|i: int| 0 <= i < b.len() ==> good(#[trigger] b[i]),
    ensures
        forall|i: int| 0 <= i < (a + b).len() ==> good(#[trigger] (a + b)[i]),
{
    assert forall|i: int| 0 <= i < (a + b).len() implies good(#[trigger] (a + b)[i]) by {
        if i < a.len() {
            assert((a + b)[i] == a[i]);
        } else {
            assert((a + b)[i] == b[i - a.len()]);
        }
    }
}

/// What holds of an entry where it applies and has a price holds of all that is told then.
proof fn holds_of_entry(applies: bool, e: EntryView, good: spec_fn(EntryView) -> bool)
    requires
        applies && e.price % p128() != 0 ==> good(e),
    ensures
        forall|i: int| 0 <= i < entry_if(applies, e).len() ==> good(#[trigger] entry_if(applies, e)[i]),
{
}

/// Every entry of a period tells what its source did.
#[verifier::spinoff_prover]
#[verifier::rlimit(30)]
pub proof fn entries_tell_their_source(
    vol0: bool,
    due: bool,
    early: bool,
    start: SnapView,
    arb: ArbStep,
    lev: LevStep,
    dlv: Dispatch,
    alm: Dispatch,
    before: Option<SnapView>,
    after: SnapView,
    i: int,
)
    requires
        0 <= i < period_entries(vol0, due, early, start, arb, lev, dlv, alm, before, after).len(),
    ensures
        tells_its_source(
            period_entries(vol0, due, early, start, arb, lev, dlv, alm, before, after)[i],
            vol0,
            due,
            early,
            start,
            arb,
            lev,
            dlv,
            alm,
            before,
            after,
        ),
{
    let a = entry_if(due && early, snap_entry(start.nav, start.price, start.cr));
    let b = entry_if(
        arb.fired,
        EntryView {
            source: EntrySource::Arb,
            nav: arb.nav,
            price: volatile_price(vol0, price_of(arb.sqrt)),
            ratio: RatioView::Parts(arb.nav, arb.debt),
        },
    );
    let c = entry_if(
        lev.fired,
        EntryView {
            source: EntrySource::LevAmm,
            nav: lev.nav,
            price: after.price,
            ratio: RatioView::Parts(lev.nav, lev.debt),
        },
    );
    let d = entry_if(
        dlv.fired,
        EntryView {
            source: EntrySource::Dlv,
            nav: dlv.nav,
            price: volatile_price(vol0, price_of(dlv.sqrt)),
            ratio: RatioView::Ratio(after.cr),
        },
    );
    let e = entry_if(
        alm.fired,
        EntryView {
            source: EntrySource::Alm,
            nav: alm.nav,
            price: volatile_price(vol0, price_of(alm.sqrt)),
            ratio: RatioView::Ratio(after.cr),
        },
    );
    let f = late_snap(due && !early, before, after);
    let good = |x: EntryView|
        tells_its_source(x, vol0, due, early, start, arb, lev, dlv, alm, before, after);
    holds_of_entry(due && early, snap_entry(start.nav, start.price, start.cr), good);
    holds_of_entry(
        arb.fired,
        EntryView {
            source: EntrySource::Arb,
            nav: arb.nav,
            price: volatile_price(vol0, price_of(arb.sqrt)),
            ratio: RatioView::Parts(arb.nav, arb.debt),
        },
        good,
    );
    holds_of_entry(
        lev.fired,
        EntryView {
            source: EntrySource::LevAmm,
            nav: lev.nav,
            price: after.price,
            ratio: RatioView::Parts(lev.nav, lev.debt),
        },
        good,
    );
    holds_of_entry(
        dlv.fired,
        EntryView {
            source: EntrySource::Dlv,
            nav: dlv.nav,
            price: volatile_price(vol0, price_of(dlv.sqrt)),
            ratio: RatioView::Ratio(after.cr),
        },
        good,
    );
    holds_of_entry(
        alm.fired,
        EntryView {
            source: EntrySource::Alm,
            nav: alm.nav,
            price: volatile_price(vol0, price_of(alm.sqrt)),
            ratio: RatioView::Ratio(after.cr),
        },
        good,
    );
    late_snap_tells(vol0, due, early, start, arb, lev, dlv, alm, before, after);
    holds_of_sum(a, b, good);
    holds_of_sum(a + b, c, good);
    holds_of_sum(a + b + c, d, good);
    holds_of_sum(a + b + c + d, e, good);
    holds_of_sum(a + b + c + d + e, f, good);
    let all = a + b + c + d + e + f;
    assert(all == period_entries(vol0, due, early, start, arb, lev, dlv, alm, before, after));
    assert(good(all[i]));
}

proof fn late_snap_tells(
    vol0: bool,
    due: bool,
    early: bool,
    start: SnapView,
    arb: ArbStep,
    lev: LevStep,
    dlv: Dispatch,
    alm: Dispatch,
    before: Option<SnapView>,
    after: SnapView,
)
    ensures
        ({
            let f = late_snap(due && !early, before, after);
            forall|i: int|
                0 <= i < f.len() ==> tells_its_source(
                    #[trigger] f[i],
                    vol0,
                    due,
                    early,
                    start,
                    arb,
                    lev,
                    dlv,
                    alm,
                    before,
                    after,
                )
        }),
{
}

/// Where its price is not zero, whatever acted has just one entry, and one that acted
/// earlier in the period comes earlier.
#[verifier::spinoff_prover]
#[verifier::rlimit(40)]
pub proof fn what_acted_is_recorded(
    vol0: bool,
    due: bool,
    early: bool,
    start: SnapView,
    arb: ArbStep,
    lev: LevStep,
    dlv: Dispatch,
    alm: Dispatch,
    before: Option<SnapView>,
    after: SnapView,
)
    requires
        start.price % p128() != 0,
        after.price % p128() != 0,
        volatile_price(vol0, price_of(arb.sqrt)) % p128() != 0,
        volatile_price(vol0, price_of(dlv.sqrt)) % p128() != 0,
        volatile_price(vol0, price_of(alm.sqrt)) % p128() != 0,
        before matches Some(b) ==> b.price % p128() != 0,
    ensures
        ({
            let s = period_entries(vol0, due, early, start, arb, lev, dlv, alm, before, after);
            let a: int = if due && early {
                1
            } else {
                0
            };
            let b = a + (if arb.fired {
                1int
            } else {
                0
            });
            let c = b + (if lev.fired {
                1int
            } else {
                0
            });
            let d = c + (if dlv.fired {
                1int
            } else {
                0
            });
            let e = d + (if alm.fired {
                1int
            } else {
                0
            });
            &&& s.len() == e + (if due && !early {
                1int
            } else {
                0
            })
            &&& due && early ==> s[0].source == EntrySource::Snap
            &&& arb.fired ==> s[a].source == EntrySource::Arb
            &&& lev.fired ==> s[b].source == EntrySource::LevAmm
            &&& dlv.fired ==> s[c].source == EntrySource::Dlv
            &&& alm.fired ==> s[d].source == EntrySource::Alm
            &&& due && !early ==> s[e].source == EntrySource::Snap
        }),
{
}

/// A snapshot tells the net value, the price of the volatile token and, where there is a
/// debt, the ratio of value to debt.
pub proof fn snapshot_tells_worth(v: VaultView, p: PoolView)
    ensures
        snapped(v, p) matches Some(s) ==> {
            &&& net_value(v, p, None) == Some(s.nav)
            &&& s.price == volatile_price(v.vol0(), price_of(p.price))
            &&& v.debt == 0 ==> s.cr is None
            &&& v.debt != 0 ==> s.cr == collateral_ratio(v, p, None)
        },
{
    reveal(snapped);
}

} // verus!
