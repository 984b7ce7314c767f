//! What holds of every operation of a vault: what it leaves alone, what it never loses
//! and where it stops.
use crate::arb::{arb_amount, gap_closed, DetectionView};
use crate::arith::{div_facts, p128, p256, wrap, wrap_add, wrap_signed_facts};
use crate::debt_model::{
    best_loan, ratio_after, regulated, regulated_by, search_step, searched, Search, Terms,
};
use crate::lev_model::{
    lev_applied, lev_burn, lev_burned, lev_mint, lev_minted, lev_minted_slot, lev_run, lev_step,
    lev_traded, LevTerms,
};
use crate::pool_laws::swap_within_bounds;
use crate::pool_model::{pool_valid, PoolView};
use crate::position::fees_earned;
use crate::position_manager::{collected, position_at, position_key, position_key_unique};
use crate::tick_manager::growths_inside;
use crate::full_math::floor_mul_div;
use crate::vault_math::{
    by_role, ceil_quotient, one_wad, price_of, smaller, stable_value, to_stable, wadd, wmul, wsub,
};
use crate::types::abs;
use crate::vault_model::{
    all_harvested, burned_range, closed_range, deployed, emptied, fees_of, filled, gross_value,
    harvested, limit_filled, lp_amounts_at, manager, minted_range, net_value, price_or,
    pro_rata_terms, rebalanced, redeemed, share_burned, slot_fees, slot_harvested, topped_up,
    totals, totals_at, unwound, unwound_slot, LevAmmOpMode, RangeView, Slot, Unwinding, VaultView,
};
use crate::vault_recenter::{
    all_shifted, bound_tick, limit_moved, limit_target, moved_range, recentered, shift_ticks,
    shifted, spacings_off, stepped, Deviation,
};
use vstd::prelude::*;

verus! {

/// A vault that differs from another one at most in its ranges, in what is idle and in
/// the fees booked.
pub open spec fn only_holdings_differ(v: VaultView, w: VaultView) -> bool {
    w == (VaultView {
        wide: w.wide,
        base: w.base,
        limit: w.limit,
        idle0: w.idle0,
        idle1: w.idle1,
        fees0: w.fees0,
        fees1: w.fees1,
        ..v
    })
}

/// A pool at the same price and tick as another one.
pub open spec fn same_price(p: PoolView, q: PoolView) -> bool {
    q.price == p.price && q.tick == p.tick && q.spacing == p.spacing && q.fee == p.fee
}

/// An operation that moved holdings only, if it succeeded.
pub open spec fn moves_holdings(v: VaultView, p: PoolView, r: Option<(VaultView, PoolView)>) -> bool {
    r matches Some((w, q)) ==> only_holdings_differ(v, w) && same_price(p, q)
}

proof fn mint_moves(v: VaultView, p: PoolView, lower: int, upper: int, l: int)
    ensures
        minted_range(v, p, lower, upper, l) matches Some((w, q, u0, u1))
            ==> only_holdings_differ(v, w) && same_price(p, q),
{
    reveal(minted_range);
}

proof fn burn_moves(v: VaultView, p: PoolView, lower: int, upper: int, l: int)
    ensures
        burned_range(v, p, lower, upper, l) matches Some((w, q, b, c)) ==> only_holdings_differ(v, w)
            && same_price(p, q),
{
    reveal(burned_range);
}

proof fn fill_moves(v: VaultView, p: PoolView, slot: Slot, lower: int, upper: int)
    ensures
        moves_holdings(v, p, filled(v, p, slot, lower, upper)),
{
    reveal(filled);
    assert forall|l: int| #[trigger] minted_range(v, p, lower, upper, l) matches Some((w, q, u0, u1))
        ==> only_holdings_differ(v, w) && same_price(p, q) by {
        mint_moves(v, p, lower, upper, l);
    }
}

proof fn limit_moves(v: VaultView, p: PoolView, floor: int, ceil: int)
    ensures
        moves_holdings(v, p, limit_filled(v, p, floor, ceil)),
{
    reveal(limit_filled);
    assert forall|a: int, b: int, l: int| #[trigger]
        minted_range(v, p, a, b, l) matches Some((w, q, u0, u1)) ==> only_holdings_differ(v, w)
        && same_price(p, q) by {
        mint_moves(v, p, a, b, l);
    }
}

/// Placing what is idle changes neither the debt nor the shares nor any setting, and
/// leaves the price of the pool alone.
pub proof fn rebalance_moves_holdings(v: VaultView, p: PoolView)
    ensures
        moves_holdings(v, p, rebalanced(v, p)),
{
    reveal(rebalanced);
    assert forall|v1: VaultView, p1: PoolView, s: Slot, a: int, b: int| moves_holdings(
        v1,
        p1,
        #[trigger] filled(v1, p1, s, a, b),
    ) by {
        fill_moves(v1, p1, s, a, b);
    }
    assert forall|v1: VaultView, p1: PoolView, a: int, b: int| moves_holdings(
        v1,
        p1,
        #[trigger] limit_filled(v1, p1, a, b),
    ) by {
        limit_moves(v1, p1, a, b);
    }
}

proof fn top_up_moves(v: VaultView, p: PoolView, slot: Slot)
    ensures
        moves_holdings(v, p, topped_up(v, p, slot)),
{
    reveal(topped_up);
    assert forall|a: int, b: int, l: int| #[trigger]
        minted_range(v, p, a, b, l) matches Some((w, q, u0, u1)) ==> only_holdings_differ(v, w)
        && same_price(p, q) by {
        mint_moves(v, p, a, b, l);
    }
}

/// Deploying what is idle changes holdings only.
pub proof fn deploy_moves_holdings(v: VaultView, p: PoolView)
    ensures
        moves_holdings(v, p, deployed(v, p)),
{
    top_up_moves(v, p, Slot::Base);
    if let Some((v1, p1)) = topped_up(v, p, Slot::Base) {
        top_up_moves(v1, p1, Slot::Wide);
        if let Some((v2, p2)) = topped_up(v1, p1, Slot::Wide) {
            top_up_moves(v2, p2, Slot::Limit);
        }
    }
}

proof fn close_moves(v: VaultView, p: PoolView, r: Option<RangeView>)
    ensures
        moves_holdings(v, p, closed_range(v, p, r)),
{
    reveal(closed_range);
    if let Some(x) = r {
        burn_moves(v, p, x.lower, x.upper, x.liquidity);
    }
}

/// Giving up all ranges changes holdings only.
pub proof fn withdrawal_moves_holdings(v: VaultView, p: PoolView)
    ensures
        moves_holdings(v, p, emptied(v, p)),
        emptied(v, p) matches Some((w, q)) ==> w.wide is None && w.base is None && w.limit is None,
{
    let bare = VaultView { wide: None, base: None, limit: None, ..v };
    close_moves(bare, p, v.wide);
    close_keeps_ranges(bare, p, v.wide);
    if let Some((v1, p1)) = closed_range(bare, p, v.wide) {
        close_moves(v1, p1, v.base);
        close_keeps_ranges(v1, p1, v.base);
        if let Some((v2, p2)) = closed_range(v1, p1, v.base) {
            close_moves(v2, p2, v.limit);
            close_keeps_ranges(v2, p2, v.limit);
        }
    }
}

proof fn close_keeps_ranges(v: VaultView, p: PoolView, r: Option<RangeView>)
    ensures
        closed_range(v, p, r) matches Some((w, q)) ==> w.wide == v.wide && w.base == v.base
            && w.limit == v.limit,
{
    reveal(closed_range);
    reveal(burned_range);
}

/// Following the price changes holdings only.
pub proof fn recenter_moves_holdings(
    v: VaultView,
    p: PoolView,
    only_outside: bool,
    move_limit: bool,
    d: Deviation,
)
    ensures
        recentered(v, p, only_outside, move_limit, d) matches Some((w, q, n))
            ==> only_holdings_differ(v, w) && same_price(p, q),
{
    withdrawal_moves_holdings(v, p);
    if let Some((w, q)) = emptied(v, p) {
        rebalance_moves_holdings(w, q);
    }
    let steps = smaller(spacings_off(v, p), d.shift_speed as int);
    step_moves(v, p, steps, only_outside, move_limit);
}

proof fn range_moves(v: VaultView, p: PoolView, slot: Slot, r: RangeView, lower: int, upper: int)
    ensures
        moves_holdings(v, p, moved_range(v, p, slot, r, lower, upper)),
{
    reveal(moved_range);
    burn_moves(v, p, r.lower, r.upper, r.liquidity);
}

proof fn shift_moves(v: VaultView, p: PoolView, slot: Slot, shift: int, only_outside: bool)
    ensures
        moves_holdings(v, p, shifted(v, p, slot, shift, only_outside)),
{
    reveal(shifted);
    if let Some(r) = v.range(slot) {
        range_moves(
            v,
            p,
            slot,
            r,
            bound_tick(r.lower + shift),
            bound_tick(r.upper + shift),
        );
    }
}

proof fn step_moves(v: VaultView, p: PoolView, steps: int, only_outside: bool, move_limit: bool)
    ensures
        moves_holdings(v, p, stepped(v, p, steps, only_outside, move_limit)),
{
    reveal(stepped);
    let shift = shift_ticks(v, p, steps);
    shift_moves(v, p, Slot::Wide, shift, only_outside);
    if let Some((v1, p1)) = shifted(v, p, Slot::Wide, shift, only_outside) {
        shift_moves(v1, p1, Slot::Base, shift, only_outside);
        if let Some((v2, p2)) = shifted(v1, p1, Slot::Base, shift, only_outside) {
            shift_moves(v2, p2, Slot::Limit, shift, only_outside);
        }
    }
    if let Some((v3, p3)) = all_shifted(v, p, shift, only_outside) {
        limit_range_moves(v3, p3);
        deploy_moves_holdings(v3, p3);
        if let Some((v4, p4)) = limit_moved(v3, p3) {
            deploy_moves_holdings(v4, p4);
        }
    }
}

proof fn limit_range_moves(v: VaultView, p: PoolView)
    ensures
        moves_holdings(v, p, limit_moved(v, p)),
{
    reveal(limit_moved);
    if let Some(r) = v.limit {
        if let Some(Some((lower, upper))) = limit_target(v, p) {
            range_moves(v, p, Slot::Limit, r, lower, upper);
        }
    }
}

proof fn harvest_moves(v: VaultView, p: PoolView, slot: Slot)
    ensures
        moves_holdings(v, p, slot_harvested(v, p, slot)),
        slot_harvested(v, p, slot) matches Some((w, q)) ==> w.wide == v.wide && w.base == v.base
            && w.limit == v.limit,
{
    reveal(harvested);
}

/// Collecting fees changes holdings only, and leaves the ranges alone.
pub proof fn harvest_moves_holdings(v: VaultView, p: PoolView)
    ensures
        moves_holdings(v, p, all_harvested(v, p)),
        all_harvested(v, p) matches Some((w, q)) ==> w.wide == v.wide && w.base == v.base && w.limit
            == v.limit,
{
    harvest_moves(v, p, Slot::Wide);
    if let Some((v1, p1)) = slot_harvested(v, p, Slot::Wide) {
        harvest_moves(v1, p1, Slot::Base);
        if let Some((v2, p2)) = slot_harvested(v1, p1, Slot::Base) {
            harvest_moves(v2, p2, Slot::Limit);
        }
    }
}

proof fn unwind_moves(u: Unwinding, slot: Slot, price: int)
    ensures
        unwound_slot(u, slot, price) matches Some(x) ==> only_holdings_differ(u.vault, x.vault)
            && same_price(u.pool, x.pool),
{
    reveal(unwound_slot);
    assert forall|a: int, b: int, l: int| #[trigger]
        burned_range(u.vault, u.pool, a, b, l) matches Some((w, q, y, c)) ==> only_holdings_differ(
        u.vault,
        w,
    ) && same_price(u.pool, q) by {
        burn_moves(u.vault, u.pool, a, b, l);
    }
}

/// Unwinding ranges for a value changes holdings only.
pub proof fn unwinding_moves(v: VaultView, p: PoolView, target: int, price: int)
    ensures
        unwound(v, p, target, price) matches Some(x) ==> only_holdings_differ(v, x.vault)
            && same_price(p, x.pool),
{
    let u = Unwinding { vault: v, pool: p, left: target, out0: 0, out1: 0 };
    unwind_moves(u, Slot::Limit, price);
    if let Some(u1) = unwound_slot(u, Slot::Limit, price) {
        unwind_moves(u1, Slot::Base, price);
        if let Some(u2) = unwound_slot(u1, Slot::Base, price) {
            unwind_moves(u2, Slot::Wide, price);
        }
    }
}

proof fn lev_mint_moves(v: VaultView, p: PoolView, slot: Slot, a0: int, a1: int, total: int)
    ensures
        moves_holdings(v, p, lev_minted_slot(v, p, slot, a0, a1, total)),
{
    reveal(lev_minted_slot);
    assert forall|a: int, b: int, l: int| #[trigger]
        minted_range(v, p, a, b, l) matches Some((w, q, u0, u1)) ==> only_holdings_differ(v, w)
        && same_price(p, q) by {
        mint_moves(v, p, a, b, l);
    }
}

/// A step of the leverage market maker carries out all that it decides: nothing is
/// pending after it, and the price of the pool is left alone.
pub proof fn lev_step_leaves_nothing_pending(
    v: VaultView,
    p: PoolView,
    t: LevTerms,
    tc: int,
    o: Option<int>,
)
    ensures
        lev_run(v, p, t, tc, o) matches Some((w, q, r)) ==> {
            &&& w.pending is None
            &&& w.pending_trade == 0
            &&& !w.pending_init
            &&& w.pending0 == 0
            &&& w.pending1 == 0
            &&& same_price(p, q)
        },
{
    assert forall|x: VaultView, price: int| #[trigger] lev_applied(x, p, price) matches Some((w, q))
        ==> w.pending is None && w.pending_trade == 0 && !w.pending_init && w.pending0 == 0
        && w.pending1 == 0 && same_price(p, q) by {
        application_clears(x, p, price);
    }
}

proof fn application_clears(v: VaultView, p: PoolView, price: int)
    ensures
        lev_applied(v, p, price) matches Some((w, q)) ==> {
            &&& w.pending is None
            &&& w.pending_trade == 0
            &&& !w.pending_init
            &&& w.pending0 == 0
            &&& w.pending1 == 0
            &&& same_price(p, q)
        },
{
    reveal(lev_applied);
    reveal(lev_minted);
    reveal(lev_burned);
    let w = VaultView {
        pending: None,
        pending_trade: 0,
        pending_init: false,
        pending0: 0,
        pending1: 0,
        ..v
    };
    let x = w.plus_idle(v.pending0, v.pending1);
    withdrawal_moves_holdings(x, p);
    if let Some((y, q)) = emptied(x, p) {
        rebalance_moves_holdings(y, q);
    }
    assert forall|y: VaultView, q: PoolView, s: Slot, a0: int, a1: int, total: int| moves_holdings(
        y,
        q,
        #[trigger] lev_minted_slot(y, q, s, a0, a1, total),
    ) by {
        lev_mint_moves(y, q, s, a0, a1, total);
    }
    unwinding_moves(w, p, v.pending_trade, price);
}

// ── sums ──

proof fn wrap_small(x: int)
    requires
        0 <= x < p256(),
    ensures
        wrap(x) == x,
{
    vstd::arithmetic::div_mod::lemma_small_mod(x as nat, p256() as nat);
}

/// Both members of a sum modulo 2^256.
spec fn totals_are(v: VaultView, p: PoolView, price: int, up: bool, l: (int, int), f: (int, int)) -> bool {
    totals_at(v, p, price, up) == Some((wrap(l.0 + f.0 + v.idle0), wrap(l.1 + f.1 + v.idle1)))
}

proof fn totals_form(v: VaultView, p: PoolView, price: int, up: bool)
    requires
        lp_amounts_at(v, price, up) is Some,
        fees_of(v, p) is Some,
    ensures
        totals_are(v, p, price, up, lp_amounts_at(v, price, up)->0, fees_of(v, p)->0),
{
    let l = lp_amounts_at(v, price, up)->0;
    let f = fees_of(v, p)->0;
    wrap_add(l.0 + f.0, v.idle0);
    wrap_add(l.1 + f.1, v.idle1);
}

/// The vault with its debt and its idle stable tokens changed by the same amount.
spec fn both_moved(v: VaultView, a: int) -> VaultView {
    if v.vol0() {
        VaultView { debt: wrap(v.debt + a), idle1: wrap(v.idle1 + a), ..v }
    } else {
        VaultView { debt: wrap(v.debt + a), idle0: wrap(v.idle0 + a), ..v }
    }
}

proof fn regulated_amount(v: VaultView, volatile_value: int, stable: int, tc: int) -> (a: int)
    requires
        0 <= v.idle0 < p256(),
        0 <= v.idle1 < p256(),
        0 <= v.debt < p256(),
        tc > one_wad(),
    ensures
        ({
            let (w, what) = regulated_by(v, volatile_value, stable, tc);
            &&& w == both_moved(v, a)
            &&& what == "burn"@ ==> -v.debt <= a <= 0 && -v.stable_idle() <= a
        }),
{
    reveal_strlit("mint");
    reveal_strlit("burn");
    reveal_strlit("noop");
    assert("mint"@[0] == 'm' && "burn"@[0] == 'b' && "noop"@[0] == 'n');
    assert(wrap(v.debt) == v.debt && wrap(v.idle0) == v.idle0 && wrap(v.idle1) == v.idle1) by {
        wrap_small(v.debt);
        wrap_small(v.idle0);
        wrap_small(v.idle1);
    }
    let gross = wadd(stable, volatile_value);
    let ratio = floor_mul_div(gross, one_wad(), v.debt);
    let have = wmul(gross, one_wad());
    let want = wmul(tc, v.debt);
    let up = smaller(volatile_value - stable, (have - want) / (tc - one_wad()));
    let down = smaller(
        smaller(smaller(stable - volatile_value, (want - have) / (tc - one_wad())), v.debt),
        v.stable_idle(),
    );
    if want > have {
        vstd::arithmetic::div_mod::lemma_div_pos_is_pos(want - have, tc - one_wad());
    }
    if ratio > tc && volatile_value > stable {
        if have > want && up != 0 {
            up
        } else {
            0
        }
    } else if ratio < tc && stable > volatile_value && want > have && down != 0 {
        -down
    } else {
        0
    }
}

proof fn net_form(gross: int, debt: int, a: int)
    ensures
        wsub(wrap(gross + a), wrap(debt + a)) == wsub(wrap(gross), debt),
{
    wrap_add(gross + a, wrap(debt + a));
    wrap_add(gross + a, debt + a);
    wrap_add(gross, debt);
}

/// Moving the debt and the idle stable tokens together keeps the value less the debt.
proof fn move_keeps_net(v: VaultView, p: PoolView, a: int, price: int)
    requires
        totals(v, p, false) is Some,
    ensures
        totals(both_moved(v, a), p, false) is Some,
        equity(both_moved(v, a), p, price) == equity(v, p, price),
{
    let w = both_moved(v, a);
    totals_form(v, p, p.price, false);
    totals_form(w, p, p.price, false);
    let l = lp_amounts_at(v, p.price, false)->0;
    let f = fees_of(v, p)->0;
    let (t0, t1) = totals(v, p, false)->0;
    let (volatile, stable) = by_role(v.vol0(), t0, t1);
    let value = to_stable(v.vol0(), volatile, price);
    let held = if v.vol0() {
        l.1 + f.1
    } else {
        l.0 + f.0
    };
    let idle = v.stable_idle();
    wrap_add(held, idle + a);
    wrap_add(held + idle + a, value);
    wrap_add(held + idle, value);
    assert(held + (idle + a) == held + idle + a);
    assert(held + idle + a + value == held + idle + value + a);
    net_form(held + idle + value, v.debt, a);
}

/// Stable tokens that come in and lie idle raise the value by just their amount, whatever
/// the price: token 1 where token 0 is the volatile one, else token 0.
pub proof fn idle_stable_counts_in_full(v: VaultView, p: PoolView, a: int, o: Option<int>)
    requires
        totals(v, p, false) is Some,
    ensures
        ({
            let w = if v.vol0() {
                VaultView { idle1: (v.idle1 + a) % p256(), ..v }
            } else {
                VaultView { idle0: (v.idle0 + a) % p256(), ..v }
            };
            gross_value(w, p, o) == Some((gross_value(v, p, o)->0 + a) % p256())
        }),
{
    let w = if v.vol0() {
        VaultView { idle1: wrap(v.idle1 + a), ..v }
    } else {
        VaultView { idle0: wrap(v.idle0 + a), ..v }
    };
    totals_form(v, p, p.price, false);
    totals_form(w, p, p.price, false);
    let l = lp_amounts_at(v, p.price, false)->0;
    let f = fees_of(v, p)->0;
    let (t0, t1) = totals(v, p, false)->0;
    let (volatile, stable) = by_role(v.vol0(), t0, t1);
    let value = to_stable(v.vol0(), volatile, price_of(price_or(p, o)));
    let held = if v.vol0() {
        l.1 + f.1
    } else {
        l.0 + f.0
    };
    let idle = v.stable_idle();
    wrap_add(held, idle + a);
    wrap_add(held + idle + a, value);
    wrap_add(held + idle, value);
    wrap_add(held + idle + value, a);
    assert(held + (idle + a) == held + idle + a);
    assert(held + idle + a + value == held + idle + value + a);
}

/// The value of all that is held, less the debt, modulo 2^256.
pub open spec fn equity(v: VaultView, p: PoolView, price: int) -> int {
    let (t0, t1) = totals(v, p, false)->0;
    wsub(stable_value(v.vol0(), t0, t1, price), v.debt)
}

/// Regulating the debt changes what is held and what is owed by the same amount: the
/// value less the debt stays the same at every price. What is paid off is no more than
/// the debt and no more than what is idle.
pub proof fn regulation_keeps_equity(v: VaultView, p: PoolView, o: Option<int>, tc: int, price: int)
    requires
        0 <= v.idle0 < p256(),
        0 <= v.idle1 < p256(),
        0 <= v.debt < p256(),
        totals(v, p, false) is Some,
        regulated(v, p, o, tc) is Some,
    ensures
        ({
            let (w, what) = regulated(v, p, o, tc)->0;
            &&& totals(w, p, false) is Some
            &&& equity(w, p, price) == equity(v, p, price)
            &&& what == "burn"@ ==> w.debt <= v.debt && w.stable_idle() <= v.stable_idle()
                && v.debt - w.debt == v.stable_idle() - w.stable_idle()
        }),
{
    reveal_strlit("burn");
    reveal_strlit("noop");
    assert("burn"@[0] == 'b' && "noop"@[0] == 'n');
    let (w, what) = regulated(v, p, o, tc)->0;
    let (t0, t1) = totals(v, p, false)->0;
    let market = price_of(price_or(p, o));
    let (volatile, stable) = by_role(v.vol0(), t0, t1);
    if v.debt == 0 || tc <= one_wad() || (!v.vol0() && market == 0) {
        assert(w == v);
    } else {
        let a = regulated_amount(v, to_stable(v.vol0(), volatile, market), stable, tc);
        move_keeps_net(v, p, a, price);
        if what == "burn"@ {
            wrap_small(v.debt + a);
            wrap_small(v.stable_idle() + a);
        }
    }
}

// ── fees ──

/// Two ranges are not the same one.
pub open spec fn apart(a: Option<RangeView>, b: Option<RangeView>) -> bool {
    match (a, b) {
        (Some(x), Some(y)) => x.lower != y.lower || x.upper != y.upper,
        _ => true,
    }
}

/// No two ranges of the vault are the same one.
pub open spec fn ranges_apart(v: VaultView) -> bool {
    apart(v.wide, v.base) && apart(v.wide, v.limit) && apart(v.base, v.limit)
}

proof fn nothing_earned(growth: int, last: int, liquidity: int)
    ensures
        liquidity == 0 ==> fees_earned(growth, last, liquidity) == 0,
        growth == last ==> fees_earned(growth, last, liquidity) == 0,
{
    wrap_small(0);
    let x = wrap(growth - last);
    if liquidity == 0 {
        assert(x * liquidity == 0) by (nonlinear_arith)
            requires
                liquidity == 0,
        ;
    }
    if growth == last {
        assert(x * liquidity == 0) by (nonlinear_arith)
            requires
                x == 0,
        ;
    }
    assert(0int / p128() == 0);
}

/// What a range is owed before its fees are collected is what is paid out and what is
/// left; the fees of every other range are as they were.
proof fn harvest_moves_fees(v: VaultView, p: PoolView, r: RangeView)
    requires
        harvested(v, p, r.lower, r.upper) is Some,
    ensures
        ({
            let (w, q) = harvested(v, p, r.lower, r.upper)->0;
            &&& slot_fees(p, Some(r)) is Some
            &&& slot_fees(q, Some(r)) is Some
            &&& ({
                let (f0, f1) = slot_fees(p, Some(r))->0;
                let (g0, g1) = slot_fees(q, Some(r))->0;
                &&& wrap(g0 + w.idle0) == wrap(f0 + v.idle0)
                &&& wrap(g1 + w.idle1) == wrap(f1 + v.idle1)
            })
            &&& forall|o: Option<RangeView>| apart(Some(r), o) ==> #[trigger] slot_fees(q, o)
                == slot_fees(p, o)
        }),
{
    reveal(harvested);
    reveal(slot_fees);
    wrap_signed_facts(0);
    let key = position_key(manager(), r.lower, r.upper);
    let pos = position_at(p.positions, key);
    let (g0, g1) = growths_inside(p.ticks, r.lower, r.upper, p.tick, p.growth0, p.growth1);
    nothing_earned(g0, pos.last0, pos.liquidity);
    nothing_earned(g1, pos.last1, pos.liquidity);
    nothing_earned(g0, g0, pos.liquidity);
    nothing_earned(g1, g1, pos.liquidity);
    let (w, q) = harvested(v, p, r.lower, r.upper)->0;
    let (f0, f1) = slot_fees(p, Some(r))->0;
    let e0 = wrap(pos.owed0 + fees_earned(g0, pos.last0, pos.liquidity));
    let e1 = wrap(pos.owed1 + fees_earned(g1, pos.last1, pos.liquidity));
    let c0 = collected(e0, p128() - 1);
    let c1 = collected(e1, p128() - 1);
    assert(w.idle0 == wadd(v.idle0, c0) && w.idle1 == wadd(v.idle1, c1));
    let (h0, h1) = slot_fees(q, Some(r))->0;
    assert(h0 == e0 - c0 || h0 == wrap(e0 - c0));
    assert(h1 == e1 - c1 || h1 == wrap(e1 - c1));
    paid_and_left(f0, e0, c0, h0, v.idle0, pos.owed0, fees_earned(g0, pos.last0, pos.liquidity));
    paid_and_left(f1, e1, c1, h1, v.idle1, pos.owed1, fees_earned(g1, pos.last1, pos.liquidity));
    assert forall|o: Option<RangeView>| apart(Some(r), o) implies #[trigger] slot_fees(q, o)
        == slot_fees(p, o) by {
        if let Some(x) = o {
            if position_key(manager(), x.lower, x.upper) == key {
                position_key_unique(manager(), x.lower, x.upper, manager(), r.lower, r.upper);
            }
        }
    }
}

proof fn paid_and_left(f: int, e: int, c: int, h: int, idle: int, owed: int, earned: int)
    requires
        e == wrap(owed + earned),
        f == wrap(owed + earned) || (f == owed && earned == 0),
        h == e - c || h == wrap(e - c),
    ensures
        wrap(h + wadd(idle, c)) == wrap(f + idle),
{
    wrap_add(h, idle + c);
    wrap_add(e - c, idle + c);
    wrap_add(owed + earned, idle);
    assert(e - c + (idle + c) == e + idle);
    assert(owed + earned + idle == owed + idle + earned);
}

/// The sums behind the fees.
proof fn fees_form(v: VaultView, p: PoolView)
    requires
        slot_fees(p, v.wide) is Some,
        slot_fees(p, v.base) is Some,
        slot_fees(p, v.limit) is Some,
    ensures
        ({
            let (a0, a1) = slot_fees(p, v.wide)->0;
            let (b0, b1) = slot_fees(p, v.base)->0;
            let (c0, c1) = slot_fees(p, v.limit)->0;
            fees_of(v, p) == Some((wrap(a0 + b0 + c0), wrap(a1 + b1 + c1)))
        }),
{
    let (a0, a1) = slot_fees(p, v.wide)->0;
    let (b0, b1) = slot_fees(p, v.base)->0;
    let (c0, c1) = slot_fees(p, v.limit)->0;
    wrap_add(a0 + b0, c0);
    wrap_add(a1 + b1, c1);
}

/// Fees that are paid out of one range and idle from then on leave the totals alone.
proof fn sums_agree(l: int, f: int, g: int, rest: int, i: int, j: int)
    requires
        wrap(g + j) == wrap(f + i),
    ensures
        wrap(l + wrap(g + rest) + j) == wrap(l + wrap(f + rest) + i),
{
    wrap_add(g + rest, l + j);
    wrap_add(f + rest, l + i);
    wrap_add(g + j, l + rest);
    wrap_add(f + i, l + rest);
    assert(l + wrap(g + rest) + j == wrap(g + rest) + (l + j));
    assert(l + wrap(f + rest) + i == wrap(f + rest) + (l + i));
    assert(g + rest + (l + j) == g + j + (l + rest));
    assert(f + rest + (l + i) == f + i + (l + rest));
}

/// The totals before and after fees have moved from a range to what is idle.
proof fn moved_fees_keep_totals(
    v: VaultView,
    p: PoolView,
    w: VaultView,
    q: PoolView,
    price: int,
    up: bool,
    f: (int, int),
    g: (int, int),
    rest: (int, int),
)
    requires
        lp_amounts_at(w, price, up) == lp_amounts_at(v, price, up),
        fees_of(v, p) == Some((wrap(f.0 + rest.0), wrap(f.1 + rest.1))),
        fees_of(w, q) == Some((wrap(g.0 + rest.0), wrap(g.1 + rest.1))),
        wrap(g.0 + w.idle0) == wrap(f.0 + v.idle0),
        wrap(g.1 + w.idle1) == wrap(f.1 + v.idle1),
    ensures
        totals_at(w, q, price, up) == totals_at(v, p, price, up),
{
    if let Some(l) = lp_amounts_at(v, price, up) {
        totals_form(v, p, price, up);
        totals_form(w, q, price, up);
        sums_agree(l.0, f.0, g.0, rest.0, v.idle0, w.idle0);
        sums_agree(l.1, f.1, g.1, rest.1, v.idle1, w.idle1);
    }
}

/// One slot and the other two in their order.
spec fn all_slots(slot: Slot, other: Slot, last: Slot) -> bool {
    ||| slot == Slot::Wide && other == Slot::Base && last == Slot::Limit
    ||| slot == Slot::Base && other == Slot::Wide && last == Slot::Limit
    ||| slot == Slot::Limit && other == Slot::Wide && last == Slot::Base
}

/// The fees as those of one slot and those of the other two.
proof fn fees_by_slot(v: VaultView, p: PoolView, slot: Slot, other: Slot, last: Slot)
    requires
        all_slots(slot, other, last),
        slot_fees(p, v.range(slot)) is Some,
        slot_fees(p, v.range(other)) is Some,
        slot_fees(p, v.range(last)) is Some,
    ensures
        ({
            let (f0, f1) = slot_fees(p, v.range(slot))->0;
            let (o0, o1) = slot_fees(p, v.range(other))->0;
            let (u0, u1) = slot_fees(p, v.range(last))->0;
            fees_of(v, p) == Some((wrap(f0 + (o0 + u0)), wrap(f1 + (o1 + u1))))
        }),
{
    fees_form(v, p);
}

proof fn slot_harvest_keeps_totals(
    v: VaultView,
    p: PoolView,
    slot: Slot,
    other: Slot,
    last: Slot,
    price: int,
    up: bool,
)
    requires
        all_slots(slot, other, last),
        ranges_apart(v),
        slot_harvested(v, p, slot) is Some,
    ensures
        ({
            let (w, q) = slot_harvested(v, p, slot)->0;
            &&& totals_at(w, q, price, up) == totals_at(v, p, price, up)
            &&& ranges_apart(w)
        }),
{
    harvest_moves(v, p, slot);
    let (w, q) = slot_harvested(v, p, slot)->0;
    if let Some(r) = v.range(slot) {
        harvest_moves_fees(v, p, r);
        let o = v.range(other);
        let u = v.range(last);
        assert(w.range(slot) == Some(r) && w.range(other) == o && w.range(last) == u);
        assert(slot_fees(q, o) == slot_fees(p, o));
        assert(slot_fees(q, u) == slot_fees(p, u));
        if slot_fees(p, o) is Some && slot_fees(p, u) is Some {
            fees_by_slot(v, p, slot, other, last);
            fees_by_slot(w, q, slot, other, last);
            let (o0, o1) = slot_fees(p, o)->0;
            let (u0, u1) = slot_fees(p, u)->0;
            moved_fees_keep_totals(
                v,
                p,
                w,
                q,
                price,
                up,
                slot_fees(p, Some(r))->0,
                slot_fees(q, Some(r))->0,
                (o0 + u0, o1 + u1),
            );
        } else {
            assert(fees_of(v, p) is None && fees_of(w, q) is None);
        }
    }
}

/// Collecting fees does not change what the vault is worth: as long as no two ranges
/// are the same one, the totals of both tokens stay as they were at every price, and
/// with them the gross and the net value.
pub proof fn harvest_keeps_totals(v: VaultView, p: PoolView, price: int, up: bool, o: Option<int>)
    requires
        ranges_apart(v),
        all_harvested(v, p) is Some,
    ensures
        ({
            let (w, q) = all_harvested(v, p)->0;
            &&& totals_at(w, q, price, up) == totals_at(v, p, price, up)
            &&& gross_value(w, q, o) == gross_value(v, p, o)
            &&& net_value(w, q, o) == net_value(v, p, o)
        }),
{
    let (v1, p1) = slot_harvested(v, p, Slot::Wide)->0;
    let (v2, p2) = slot_harvested(v1, p1, Slot::Base)->0;
    slot_harvest_keeps_totals(v, p, Slot::Wide, Slot::Base, Slot::Limit, price, up);
    slot_harvest_keeps_totals(v1, p1, Slot::Base, Slot::Wide, Slot::Limit, price, up);
    slot_harvest_keeps_totals(v2, p2, Slot::Limit, Slot::Wide, Slot::Base, price, up);
    slot_harvest_keeps_totals(v, p, Slot::Wide, Slot::Base, Slot::Limit, p.price, false);
    slot_harvest_keeps_totals(v1, p1, Slot::Base, Slot::Wide, Slot::Limit, p.price, false);
    slot_harvest_keeps_totals(v2, p2, Slot::Limit, Slot::Wide, Slot::Base, p.price, false);
    harvest_moves_holdings(v, p);
}

// ── debt ──

proof fn search_improves(t: Terms, required: int, plan: int, s: Search, n: nat)
    requires
        ratio_after(t, required, plan, s.best) is Some,
        s.off == abs(ratio_after(t, required, plan, s.best)->0 - t.tc),
    ensures
        searched(t, required, plan, s, n) matches Some(u) ==> {
            &&& ratio_after(t, required, plan, u.best) is Some
            &&& u.off == abs(ratio_after(t, required, plan, u.best)->0 - t.tc)
            &&& u.off <= s.off
            &&& u.best == s.best || u.off < s.off
        },
    decreases n,
{
    reveal(search_step);
    if n > 0 && wsub(s.high, s.low) > 1 {
        if let Some(u) = search_step(t, required, plan, s) {
            if u.off > t.tc / 1000 {
                search_improves(t, required, plan, u, (n - 1) as nat);
            }
        }
    }
}

/// The search for a loan never makes things worse: the ratio after the loan that it
/// settles on is as close to the target as after the first one, and closer where it is
/// another loan.
pub proof fn search_never_worsens(t: Terms, required: int, plan: int, loan: int)
    ensures
        best_loan(t, required, plan, loan) matches Some(best) ==> {
            &&& ratio_after(t, required, plan, loan) is Some
            &&& ratio_after(t, required, plan, best) is Some
            &&& best == loan || abs(ratio_after(t, required, plan, best)->0 - t.tc) < abs(
                ratio_after(t, required, plan, loan)->0 - t.tc,
            )
        },
{
    reveal(best_loan);
    if let Some(cr) = ratio_after(t, required, plan, loan) {
        let off = abs(cr - t.tc);
        let low = if loan > 1 {
            loan / 2
        } else {
            1
        };
        search_improves(
            t,
            required,
            plan,
            Search { low, high: wmul(loan, 2), best: loan, off },
            40,
        );
    }
}

/// Two vaults that differ at most in whether the leverage market maker is insolvent.
pub open spec fn same_but_insolvency(v: VaultView, w: VaultView) -> bool {
    w == (VaultView { insolvent: w.insolvent, ..v })
}

/// Once it has started, the leverage market maker either leaves the debt and the
/// holdings alone and charges nothing, or it decides on a trade: one that adds debt
/// raises it, one that pays debt off lowers it, and its fee is booked as revenue and
/// as idle stable tokens.
pub proof fn lev_trade_moves_debt(
    v: VaultView,
    t0: int,
    t1: int,
    price: int,
    t: LevTerms,
    tc: int,
)
    requires
        v.notional != 0,
    ensures
        lev_step(v, t0, t1, price, t, tc) matches Some((w, fee)) ==> {
            &&& w.pending is None ==> same_but_insolvency(v, w) && fee == 0
            &&& w.pending == Some(LevAmmOpMode::Mint) ==> w.debt > v.debt
            &&& w.pending == Some(LevAmmOpMode::Burn) ==> w.debt < v.debt
            &&& w.pending is Some ==> w.revenue == wadd(v.revenue, fee) && w.stable_idle() == wadd(
                v.stable_idle(),
                fee,
            )
        },
{
    reveal(lev_step);
    reveal(lev_traded);
    reveal(lev_mint);
    reveal(lev_burn);
}

// ── shares ──

proof fn share_burn_moves(
    v: VaultView,
    p: PoolView,
    slot: Slot,
    shares: int,
    supply: int,
    out: (int, int),
)
    ensures
        share_burned(v, p, slot, shares, supply, out) matches Some((w, q, o))
            ==> only_holdings_differ(v, w) && same_price(p, q),
{
    reveal(share_burned);
    assert forall|a: int, b: int, l: int| #[trigger]
        burned_range(v, p, a, b, l) matches Some((w, q, y, c)) ==> only_holdings_differ(v, w)
        && same_price(p, q) by {
        burn_moves(v, p, a, b, l);
    }
}

/// Redeeming shares lowers the supply by just these shares; beyond that it changes
/// holdings only, and the price of the pool stays.
pub proof fn redemption_lowers_supply(v: VaultView, p: PoolView, shares: int)
    requires
        0 <= shares <= v.supply < p256(),
    ensures
        redeemed(v, p, shares) matches Some((w, q, out)) ==> {
            &&& w.supply == v.supply - shares
            &&& only_holdings_differ(VaultView { supply: w.supply, ..v }, w)
            &&& same_price(p, q)
        },
{
    wrap_small(v.supply - shares);
    assert forall|x: VaultView, u: PoolView, slot: Slot, s: int, out: (int, int)| #[trigger]
        share_burned(x, u, slot, shares, s, out) matches Some((w, q, o)) ==> only_holdings_differ(x, w)
        && same_price(u, q) by {
        share_burn_moves(x, u, slot, shares, s, out);
    }
}

/// A deposit in proportion takes no more than is offered, and it gives no more shares
/// than its part of what the vault holds: the holders before it lose nothing. This is
/// so as long as no product passes 2^256.
pub proof fn deposit_is_fair(t0: int, t1: int, supply: int, d0: int, d1: int)
    requires
        0 <= t0 < p256(),
        0 <= t1 < p256(),
        0 <= supply,
        0 <= d0,
        0 <= d1,
        t0 * t1 < p256(),
        d0 * t1 < p256(),
        d1 * t0 < p256(),
        d0 * t1 * supply < p256(),
        d1 * t0 * supply < p256(),
        d0 * supply < p256(),
        d1 * supply < p256(),
    ensures
        ({
            let (a0, a1, shares) = pro_rata_terms(t0, t1, supply, d0, d1)->0;
            &&& pro_rata_terms(t0, t1, supply, d0, d1) is Some
            &&& 0 <= a0 <= d0
            &&& 0 <= a1 <= d1
            &&& 0 <= shares
            &&& shares * t0 <= a0 * supply
            &&& shares * t1 <= a1 * supply
        }),
{
    let (a0, a1, shares) = pro_rata_terms(t0, t1, supply, d0, d1)->0;
    assert(shares * 0 == 0 && 0 * supply == 0 && 0 * t0 == 0 && 0 * t1 == 0) by (nonlinear_arith);
    if supply == 0 || (t0 == 0 && t1 == 0) {
        assert(shares == 0);
    } else if t0 == 0 {
        one_sided(d1, supply, t1);
        assert(shares * t0 == shares * 0);
    } else if t1 == 0 {
        one_sided(d0, supply, t0);
        assert(shares * t1 == shares * 0);
    } else {
        both_sided(t0, t1, supply, d0, d1);
    }
}

proof fn one_sided(d: int, supply: int, t: int)
    requires
        0 <= d,
        0 <= supply,
        0 < t,
        d * supply < p256(),
    ensures
        0 <= floor_mul_div(d, supply, t),
        floor_mul_div(d, supply, t) * t <= d * supply,
{
    let x = d * supply;
    assert(0 <= x) by (nonlinear_arith)
        requires
            0 <= d,
            0 <= supply,
            x == d * supply,
    ;
    div_facts(x, t);
    let q = x / t;
    assert(0 <= q <= x && q * t <= x) by (nonlinear_arith)
        requires
            0 <= x,
            t >= 1,
            x == q * t + x % t,
            0 <= x % t < t,
    ;
    wrap_small(q);
}

proof fn both_sided(t0: int, t1: int, supply: int, d0: int, d1: int)
    requires
        0 < t0,
        0 < t1,
        0 <= supply,
        0 <= d0,
        0 <= d1,
        t0 * t1 < p256(),
        d0 * t1 < p256(),
        d1 * t0 < p256(),
        d0 * t1 * supply < p256(),
        d1 * t0 * supply < p256(),
    ensures
        ({
            let cross = smaller(wmul(d0, t1), wmul(d1, t0));
            &&& wmul(t0, t1) != 0
            &&& cross != 0 ==> {
                let a0 = ceil_quotient(cross, t1);
                let a1 = ceil_quotient(cross, t0);
                let shares = wmul(cross, supply) / wmul(t0, t1);
                &&& 0 <= a0 <= d0
                &&& 0 <= a1 <= d1
                &&& 0 <= shares
                &&& shares * t0 <= a0 * supply
                &&& shares * t1 <= a1 * supply
            }
        }),
{
    let x = d0 * t1;
    let y = d1 * t0;
    let m = t0 * t1;
    assert(0 <= x && 0 <= y && 0 < m) by (nonlinear_arith)
        requires
            0 < t0,
            0 < t1,
            0 <= d0,
            0 <= d1,
            x == d0 * t1,
            y == d1 * t0,
            m == t0 * t1,
    ;
    wrap_small(x);
    wrap_small(y);
    wrap_small(m);
    let cross = smaller(x, y);
    if cross != 0 {
        let z = cross * supply;
        assert(0 <= z && (z <= x * supply && z <= y * supply)) by (nonlinear_arith)
            requires
                0 <= cross <= x,
                cross <= y,
                0 <= supply,
                z == cross * supply,
        ;
        wrap_small(z);
        div_facts(z, m);
        let shares = z / m;
        quotient_part(cross, t1, d0);
        quotient_part(cross, t0, d1);
        let a0 = ceil_quotient(cross, t1);
        let a1 = ceil_quotient(cross, t0);
        assert(0 <= shares && shares * m <= z) by (nonlinear_arith)
            requires
                0 <= z,
                m >= 1,
                z == shares * m + z % m,
                0 <= z % m < m,
        ;
        fair_side(shares, t0, t1, m, z, cross, supply, a0);
        fair_side(shares, t1, t0, m, z, cross, supply, a1);
    }
}

proof fn quotient_part(cross: int, t: int, d: int)
    requires
        0 < t,
        0 < cross <= d * t,
        d * t < p256(),
    ensures
        0 <= ceil_quotient(cross, t) <= d,
        cross <= ceil_quotient(cross, t) * t,
{
    let a = ceil_quotient(cross, t);
    div_facts(cross, t);
    let q = cross / t;
    let r = cross % t;
    assert(0 <= q && (r == 0 ==> q <= d) && (r > 0 ==> q + 1 <= d)) by (nonlinear_arith)
        requires
            0 < t,
            0 < cross <= d * t,
            cross == q * t + r,
            0 <= r < t,
    ;
    assert((q + 1) * t == q * t + t) by (nonlinear_arith);
}

proof fn fair_side(shares: int, t: int, u: int, m: int, z: int, cross: int, supply: int, a: int)
    requires
        0 < t,
        0 < u,
        0 <= supply,
        m == t * u || m == u * t,
        z == cross * supply,
        shares * m <= z,
        cross <= a * u,
    ensures
        shares * t <= a * supply,
{
    let s = shares * t;
    let b = a * supply;
    assert(s * u <= b * u) by (nonlinear_arith)
        requires
            s == shares * t,
            b == a * supply,
            m == t * u || m == u * t,
            z == cross * supply,
            shares * m <= z,
            cross <= a * u,
            0 <= supply,
    {
        assert(s * u == shares * m);
        assert(b * u == a * u * supply);
        assert(cross * supply <= a * u * supply);
    }
    assert(s <= b) by (nonlinear_arith)
        requires
            s * u <= b * u,
            0 < u,
    ;
}

// ── arbitrage ──

/// An arbitrage moves the price towards its target and never past it; what it exchanges
/// never exceeds what it offers, and it ends at the target or with all of that used.
pub proof fn arbitrage_stops_at_target(p: PoolView, d: DetectionView, vol0: bool)
    requires
        pool_valid(p),
        p.price != 0,
        gap_closed(p, d, vol0) is Some,
    ensures
        ({
            let (q, a0, a1, gain) = gap_closed(p, d, vol0)->0;
            &&& pool_valid(q)
            &&& !d.arbitrable ==> q == p
            &&& d.arbitrable && d.zero_for_one ==> d.target <= q.price <= p.price && 0 <= a0
                <= arb_amount() && (q.price == d.target || a0 == arb_amount())
            &&& d.arbitrable && !d.zero_for_one ==> p.price <= q.price <= d.target && 0 <= a1
                <= arb_amount() && (q.price == d.target || a1 == arb_amount())
        }),
{
    if d.arbitrable {
        swap_within_bounds(p, d.zero_for_one, arb_amount(), Some(d.target));
    }
}

} // verus!
