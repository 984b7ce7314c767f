//! A simulation: replaying events, setting up a vault and running its periods.
use crate::arb::{try_detect_arb, try_execute_arb_close_gap, ArbDetection, ArbResult};
use crate::config::{opt_u64, ActiveRebalanceMode, Config};
use crate::core_pool::CorePool;
use crate::enums::EventType;
use crate::event_reader::{event_views, EventView, PoolEvent};
use crate::full_math::{mul_div, try_mul_div_rounding_up};
use crate::pool_model::pool_valid;
use crate::position::Position;
use crate::sqrt_price_math::opt;
use crate::strategy_model::{
    all_replayed, alm_dispatched, alm_step, arb_closed, arb_opened, arb_step, burn_replayed,
    counted, dlv_dispatched, dlv_step, due_until, end_with_prices, fee_and_spacing, first_deposit,
    first_moment, lev_stepped, mint_replayed, next_moment, no_arb, opened, positioned, ratio_off,
    rebuilt, recenter_dispatched, recenter_due, recycled, regulate_dispatched, regulate_step,
    replay_period, replayed, snapped, snapshot_due, swap_direction, swap_replayed, swap_terms,
    tick_or_zero, window_of, ArbStep, Counts, Dispatch, LevStep, Sim, SnapView,
};
use crate::text::same_text;
use crate::types::{i256_bits, max_sqrt_ratio, min_sqrt_ratio, I256, U256};
use crate::vault::Vault;
use crate::vault_math::{opt_pair, wad};
use crate::vault_model::{no_bound, stage};
use crate::vault_recenter::Deviation;
use vstd::prelude::*;

verus! {

// Replaying events.

fn tick_of(t: Option<i32>) -> (r: i32)
    ensures
        r == tick_or_zero(t),
{
    match t {
        Some(x) => x,
        None => 0,
    }
}

fn replay_mint(pool: &mut CorePool, event: &PoolEvent)
    requires
        old(pool).valid(),
    ensures
        final(pool).valid(),
        final(pool)@ == mint_replayed(old(pool)@, event@),
{
    if !event.liquidity.is_positive() {
        return;
    }
    let who: &str = if same_text(event.recipient.as_str(), "") {
        event.msg_sender.as_str()
    } else {
        event.recipient.as_str()
    };
    proof {
        reveal_strlit("");
        assert((event.recipient@ == ""@) == (event.recipient@.len() == 0)) by {
            if event.recipient@.len() == 0 {
                assert(event.recipient@ =~= ""@);
            }
        }
    }
    let _ = pool.try_mint(who, tick_of(event.tick_lower), tick_of(event.tick_upper), event.liquidity);
}

fn replay_burn(pool: &mut CorePool, event: &PoolEvent)
    requires
        old(pool).valid(),
    ensures
        final(pool).valid(),
        final(pool)@ == burn_replayed(old(pool)@, event@),
{
    if !event.liquidity.is_positive() {
        return;
    }
    let lower: i32 = tick_of(event.tick_lower);
    let upper: i32 = tick_of(event.tick_upper);
    let sender: &str = event.msg_sender.as_str();
    let pos: Position = pool.get_position(sender, lower, upper);
    proof {
        i256_bits(event.liquidity);
    }
    if pos.liquidity < event.liquidity.0 {
        if pos.liquidity.is_zero() {
            return;
        }
        let _ = pool.try_burn(sender, lower, upper, I256(pos.liquidity));
    } else {
        let _ = pool.try_burn(sender, lower, upper, event.liquidity);
    }
}

fn unlimited() -> (r: I256)
    ensures
        r@ == no_bound(),
{
    I256(U256::new(0x7fff_ffff_ffff_ffff_ffff_ffff_ffff_ffff, 0))
}

fn terms_of_swap(pool: &CorePool, event: &PoolEvent, down: bool) -> (r: (I256, U256))
    requires
        down == swap_direction(event@),
    ensures
        (r.0@, r.1@) == swap_terms(pool@, event@),
{
    let current: U256 = pool.sqrt_price_x96();
    let recorded: Option<U256> = event.sqrt_price_x96;
    match recorded {
        Some(h) => {
            let ahead: bool = if down {
                h < current && h > min_sqrt_ratio()
            } else {
                h > current && h < max_sqrt_ratio()
            };
            if ahead {
                return (unlimited(), h);
            }
        },
        None => {},
    }
    let amount: I256 = match event.amount_specified {
        Some(a) => a,
        None => if down {
            event.amount0
        } else {
            event.amount1
        },
    };
    let amount: I256 = if amount.is_zero() {
        unlimited()
    } else {
        amount
    };
    let limit: U256 = if down {
        min_sqrt_ratio() + U256::ONE()
    } else {
        max_sqrt_ratio() - U256::ONE()
    };
    (amount, limit)
}

fn replay_swap(pool: &mut CorePool, event: &PoolEvent)
    requires
        old(pool).valid(),
    ensures
        final(pool).valid(),
        final(pool)@ == swap_replayed(old(pool)@, event@),
{
    if pool.tick_manager().is_empty() {
        return;
    }
    let down: bool = if !event.amount0.is_zero() {
        event.amount0.is_positive()
    } else {
        event.amount1.is_negative()
    };
    let (amount, limit) = terms_of_swap(pool, event, down);
    let _ = pool.try_swap(down, amount, Some(limit));
}

/// Replays an event. One that is not possible changes nothing.
pub fn replay_event(pool: &mut CorePool, event: &PoolEvent)
    requires
        old(pool).valid(),
    ensures
        final(pool).valid(),
        final(pool)@ == replayed(old(pool)@, event@),
{
    reveal(replayed);
    match event.event_type {
        EventType::Mint => replay_mint(pool, event),
        EventType::Burn => replay_burn(pool, event),
        EventType::Swap => replay_swap(pool, event),
    }
}

/// Replays events from a place on, as long as they come before a moment. Returns the
/// place of the first one that does not.
pub fn replay_until(pool: &mut CorePool, events: &Vec<PoolEvent>, from: usize, until_ms: i128) -> (r:
    usize)
    requires
        old(pool).valid(),
        from <= events.len(),
    ensures
        final(pool).valid(),
        from <= r <= events.len(),
        r == due_until(event_views(events@), from as int, until_ms as int),
        final(pool)@ == all_replayed(
            old(pool)@,
            event_views(events@).subrange(from as int, r as int),
        ),
{
    let ghost views = event_views(events@);
    let ghost start = pool@;
    let mut i: usize = from;
    assert(views.subrange(from as int, from as int) =~= Seq::<EventView>::empty());
    while i < events.len() && (events[i].date_ms as i128) < until_ms
        invariant
            from <= i <= events.len(),
            views == event_views(events@),
            pool.valid(),
            due_until(views, i as int, until_ms as int) == due_until(
                views,
                from as int,
                until_ms as int,
            ),
            pool@ == all_replayed(start, views.subrange(from as int, i as int)),
        decreases events.len() - i,
    {
        proof {
            let grown = views.subrange(from as int, i + 1);
            assert(grown.drop_last() =~= views.subrange(from as int, i as int));
            assert(grown.last() == events[i as int]@);
        }
        replay_event(pool, &events[i]);
        i = i + 1;
    }
    i
}

/// Replays all events.
pub fn replay_all(pool: &mut CorePool, events: &Vec<PoolEvent>)
    requires
        old(pool).valid(),
    ensures
        final(pool).valid(),
        final(pool)@ == all_replayed(old(pool)@, event_views(events@)),
{
    let ghost views = event_views(events@);
    let ghost start = pool@;
    let mut i: usize = 0;
    assert(views.take(0) =~= Seq::<EventView>::empty());
    while i < events.len()
        invariant
            i <= events.len(),
            views == event_views(events@),
            pool.valid(),
            pool@ == all_replayed(start, views.take(i as int)),
        decreases events.len() - i,
    {
        proof {
            assert(views.take(i + 1).drop_last() =~= views.take(i as int));
            assert(views.take(i + 1).last() == events[i as int]@);
        }
        replay_event(pool, &events[i]);
        i = i + 1;
    }
    assert(views.take(events.len() as int) =~= views);
}

// Setting up.

/// The fee and the tick spacing of a simulation.
pub fn pool_terms(override_fee: Option<u32>, base_fee: u32, base_tick_spacing: i32) -> (r: (
    u32,
    i32,
))
    ensures
        (r.0 as int, r.1 as int) == fee_and_spacing(
            override_fee,
            base_fee as int,
            base_tick_spacing as int,
        ),
{
    match override_fee {
        Some(f) => {
            let spacing: i32 = match f {
                100 => 1,
                500 => 10,
                3000 => 60,
                _ => 200,
            };
            (f, spacing)
        },
        None => (base_fee, base_tick_spacing),
    }
}

/// Moves the pool to a price; false, with the pool as it was, where the swap fails.
pub fn move_to_price(pool: &mut CorePool, start_sqrt: U256) -> (ok: bool)
    requires
        old(pool).valid(),
    ensures
        final(pool).valid(),
        positioned(old(pool)@, start_sqrt@) == (if ok {
            Some(final(pool)@)
        } else {
            None
        }),
        !ok ==> *final(pool) == *old(pool),
{
    let current: U256 = pool.sqrt_price_x96();
    if start_sqrt.is_zero() || start_sqrt == current {
        return true;
    }
    let down: bool = start_sqrt < current;
    let valid: bool = if down {
        start_sqrt > min_sqrt_ratio()
    } else {
        start_sqrt < max_sqrt_ratio()
    };
    if !valid {
        return true;
    }
    pool.try_swap(down, unlimited(), Some(start_sqrt)).is_some()
}

/// The first deposit for a volatile amount; `None` where it is too large.
pub fn initial_deposit(volatile: U256, sqrt: U256, vol0: bool, lev_amm: bool) -> (r: Option<
    (U256, U256),
>)
    ensures
        opt_pair(r) == first_deposit(volatile@, sqrt@, vol0, lev_amm),
{
    let stable: U256 = if lev_amm {
        U256::ZERO()
    } else {
        match try_mul_div_rounding_up(volatile, Vault::volatile_price_wad(sqrt, vol0), wad()) {
            Some(x) => x,
            None => return None,
        }
    };
    if vol0 {
        Some((volatile, stable))
    } else {
        Some((stable, volatile))
    }
}

/// Makes the first deposit and, where that is called for, takes the first loan; false where
/// it fails, with vault and pool left partway.
pub fn open_vault(
    vault: &mut Vault,
    pool: &mut CorePool,
    cfg: &Config,
    amount0: U256,
    amount1: U256,
    target_cr_wad: U256,
) -> (ok: bool)
    requires
        old(vault).wf(),
        old(pool).wf(),
    ensures
        final(pool).wf(),
        pool_valid(old(pool)@) ==> pool_valid(final(pool)@),
        final(vault).tick_spacing == old(vault).tick_spacing,
        opened(old(vault)@, old(pool)@, *cfg, amount0@, amount1@, target_cr_wad@) == stage(
            ok,
            final(vault)@,
            final(pool)@,
        ),
{
    if !vault.try_deposit(pool, amount0, amount1) {
        return false;
    }
    if !cfg.is_alm_only && cfg.is_regulate_debt && !cfg.lev_amm.enabled {
        vault.try_rebalance_debt(pool, target_cr_wad, cfg.dlv.swap_fee_ppm)
    } else {
        true
    }
}

// The parts of a period.

/// What the arbitrage of a period did.
#[derive(Debug, Clone, Copy)]
pub struct ArbOutcome {
    pub deviation_bps: u128,
    pub zero_for_one: bool,
    pub fired: bool,
    pub profit: U256,
    pub pre_sqrt: U256,
    pub nav: U256,
    pub debt: U256,
}

impl View for ArbOutcome {
    type V = ArbStep;

    open spec fn view(&self) -> ArbStep {
        ArbStep {
            deviation: self.deviation_bps as int,
            zero_for_one: self.zero_for_one,
            fired: self.fired,
            profit: self.profit@,
            sqrt: self.pre_sqrt@,
            nav: self.nav@,
            debt: self.debt@,
        }
    }
}

/// What the leverage market maker of a period did.
#[derive(Debug, Clone, Copy)]
pub struct LevOutcome {
    pub fired: bool,
    pub nav: U256,
    pub debt: U256,
}

impl View for LevOutcome {
    type V = LevStep;

    open spec fn view(&self) -> LevStep {
        LevStep { fired: self.fired, nav: self.nav@, debt: self.debt@ }
    }
}

impl ArbOutcome {
    /// No arbitrage.
    pub fn none() -> (r: Self)
        ensures
            r@ == no_arb(),
    {
        ArbOutcome {
            deviation_bps: 0,
            zero_for_one: false,
            fired: false,
            profit: U256::ZERO(),
            pre_sqrt: U256::ZERO(),
            nav: U256::ZERO(),
            debt: U256::ZERO(),
        }
    }
}

impl LevOutcome {
    /// No trade.
    pub fn none() -> (r: Self)
        ensures
            r@ == (LevStep { fired: false, nav: 0, debt: 0 }),
    {
        LevOutcome { fired: false, nav: U256::ZERO(), debt: U256::ZERO() }
    }
}

fn recycle_fees(vault: &mut Vault, pool: &mut CorePool, wanted: bool) -> (ok: bool)
    requires
        old(vault).wf(),
        old(pool).wf(),
    ensures
        final(pool).wf(),
        pool_valid(old(pool)@) ==> pool_valid(final(pool)@),
        final(vault).tick_spacing == old(vault).tick_spacing,
        recycled(old(vault)@, old(pool)@, wanted) == stage(ok, final(vault)@, final(pool)@),
{
    if wanted {
        vault.try_collect_fees(pool) && vault.try_deploy_idle_to_lp(pool)
    } else {
        true
    }
}

/// Runs the arbitrage of a period against an outside price; `None` where it fails, with
/// vault and pool left partway.
pub fn dispatch_arb(
    vault: &mut Vault,
    pool: &mut CorePool,
    cfg: &Config,
    outside: Option<U256>,
    fee: u32,
) -> (r: Option<ArbOutcome>)
    requires
        old(vault).wf(),
        old(pool).valid(),
    ensures
        final(pool).valid(),
        final(vault).tick_spacing == old(vault).tick_spacing,
        arb_step(
            old(vault)@,
            old(pool)@,
            opt(outside),
            fee as int,
            cfg.no_arb_donation,
            cfg.use_fee_recycling,
        ) == (match r {
            Some(a) => Some((final(vault)@, final(pool)@, a@)),
            None => None,
        }),
{
    reveal(arb_step);
    let outside_sqrt: U256 = match outside {
        Some(x) => x,
        None => return Some(ArbOutcome::none()),
    };
    let pre_sqrt: U256 = pool.sqrt_price_x96();
    let d: ArbDetection = match try_detect_arb(pre_sqrt, outside_sqrt, fee) {
        Some(x) => x,
        None => return None,
    };
    let seen: ArbOutcome = ArbOutcome {
        deviation_bps: d.deviation_bps,
        zero_for_one: d.zero_for_one,
        ..ArbOutcome::none()
    };
    if !d.is_arbitrable {
        return Some(seen);
    }
    let vol0: bool = vault.pool_config.is_volatile_token0();
    let a: ArbResult = match try_execute_arb_close_gap(pool, &d, vol0) {
        Some(x) => x,
        None => return None,
    };
    let profit: U256 = a.profit_stable.abs();
    if a.profit_stable.is_positive() && !cfg.no_arb_donation {
        if vol0 {
            vault.idle1 = vault.idle1 + profit;
        } else {
            vault.idle0 = vault.idle0 + profit;
        }
    }
    if !recycle_fees(vault, pool, cfg.use_fee_recycling) {
        return None;
    }
    match vault.try_total_pool_value(pool, None) {
        Some(nav) => Some(
            ArbOutcome { fired: true, profit, pre_sqrt, nav, debt: vault.virtual_debt, ..seen },
        ),
        None => None,
    }
}

/// Runs one step of the leverage market maker, if it is switched on; `None` where it fails,
/// with vault and pool left partway.
pub fn dispatch_lev_amm(
    vault: &mut Vault,
    pool: &mut CorePool,
    cfg: &Config,
    target_cr_wad: U256,
    outside: Option<U256>,
) -> (r: Option<LevOutcome>)
    requires
        old(vault).wf(),
        old(pool).wf(),
    ensures
        final(pool).wf(),
        pool_valid(old(pool)@) ==> pool_valid(final(pool)@),
        final(vault).tick_spacing == old(vault).tick_spacing,
        lev_stepped(old(vault)@, old(pool)@, *cfg, target_cr_wad@, opt(outside)) == (match r {
            Some(l) => Some((final(vault)@, final(pool)@, l@)),
            None => None,
        }),
{
    reveal(lev_stepped);
    if !cfg.lev_amm.enabled {
        return Some(LevOutcome::none());
    }
    let use_outside: bool = same_text(cfg.dlv.alm_swap_price_source.as_str(), "binance");
    let price: Option<U256> = match outside {
        Some(x) => if use_outside && !x.is_zero() {
            Some(x)
        } else {
            None
        },
        None => None,
    };
    let fired: bool = match vault.try_run_lev_amm_step(pool, &cfg.lev_amm, target_cr_wad, price) {
        Some((_, f)) => f,
        None => return None,
    };
    if !fired {
        return Some(LevOutcome::none());
    }
    match vault.try_total_pool_value(pool, None) {
        Some(nav) => Some(LevOutcome { fired, nav, debt: vault.virtual_debt }),
        None => None,
    }
}

fn is_ratio_off(cr: U256, tc: U256, above: Option<u128>, below: Option<u128>) -> (r: bool)
    ensures
        r == ratio_off(cr@, tc@, above, below),
{
    let too_high: bool = match above {
        Some(a) => cr > tc + mul_div(tc, U256::from_u128(a), wad()),
        None => false,
    };
    let too_low: bool = match below {
        Some(b) => cr < tc - mul_div(tc, U256::from_u128(b), wad()),
        None => false,
    };
    too_high || too_low
}

/// Rebalances the debt where it is due and the ratio is off. Returns whether it was; `None`
/// where it fails, with vault and pool left partway.
pub fn dispatch_dlv(
    vault: &mut Vault,
    pool: &mut CorePool,
    cfg: &Config,
    target_cr_wad: U256,
    curr_ms: i64,
) -> (r: Option<bool>)
    requires
        old(vault).wf(),
        old(pool).wf(),
    ensures
        final(pool).wf(),
        pool_valid(old(pool)@) ==> pool_valid(final(pool)@),
        final(vault).tick_spacing == old(vault).tick_spacing,
        dlv_step(old(vault)@, old(pool)@, *cfg, target_cr_wad@, curr_ms as int) == (match r {
            Some(fired) => Some((final(vault)@, final(pool)@, fired)),
            None => None,
        }),
{
    reveal(dlv_step);
    if vault.virtual_debt.is_zero() {
        return Some(false);
    }
    let rested: bool = match cfg.dlv.period {
        Some(p) => vault.last_debt_rebalance_ms == 0 || curr_ms as i128
            - vault.last_debt_rebalance_ms as i128 >= p as i128 * 1000,
        None => true,
    };
    if !rested {
        return Some(false);
    }
    let cr: U256 = match vault.try_collateral_ratio_wad(pool, None) {
        Some(x) => x,
        None => return None,
    };
    if !is_ratio_off(
        cr,
        target_cr_wad,
        cfg.dlv.deviation_above_wad,
        cfg.dlv.deviation_below_wad,
    ) {
        return Some(false);
    }
    if cfg.lev_amm.enabled {
        return Some(true);
    }
    if !vault.try_rebalance_debt_dlv(pool, target_cr_wad, cfg.dlv.swap_fee_ppm) {
        return None;
    }
    vault.last_rebalance_ms = curr_ms;
    vault.last_debt_rebalance_ms = curr_ms;
    Some(true)
}

fn rebuild(vault: &mut Vault, pool: &mut CorePool, swap_fee_ppm: u128) -> (ok: bool)
    requires
        old(vault).wf(),
        old(pool).wf(),
    ensures
        final(pool).wf(),
        pool_valid(old(pool)@) ==> pool_valid(final(pool)@),
        final(vault).tick_spacing == old(vault).tick_spacing,
        rebuilt(old(vault)@, old(pool)@, swap_fee_ppm as int) == stage(
            ok,
            final(vault)@,
            final(pool)@,
        ),
{
    vault.try_withdraw_all(pool) && vault.try_active_rebalance_swap(None, pool, swap_fee_ppm)
        && vault.try_rebalance_from_idle(pool)
}

/// Rebuilds the holdings where they are too uneven. Returns whether that was done or a
/// number of periods has passed; `None` where it fails, with vault and pool left partway.
pub fn dispatch_alm(
    vault: &mut Vault,
    pool: &mut CorePool,
    cfg: &Config,
    curr_ms: i64,
    tick_count: u64,
) -> (r: Option<bool>)
    requires
        old(vault).wf(),
        old(pool).wf(),
    ensures
        final(pool).wf(),
        pool_valid(old(pool)@) ==> pool_valid(final(pool)@),
        final(vault).tick_spacing == old(vault).tick_spacing,
        alm_step(old(vault)@, old(pool)@, *cfg, curr_ms as int, tick_count as int) == (match r {
            Some(fired) => Some((final(vault)@, final(pool)@, fired)),
            None => None,
        }),
{
    reveal(alm_step);
    if cfg.lookup_period == 0 {
        return None;
    }
    let n: u64 = vault.params.period / cfg.lookup_period as u64;
    let time: bool = n > 0 && tick_count % n == 0;
    let bps: u32 = cfg.active_rebalance_ratio_deviation_bps;
    let off: bool = if cfg.active_rebalance_mode != ActiveRebalanceMode::Passive && bps > 0 {
        match vault.try_share_deviation_bps(pool, None) {
            Some(d) => d >= bps as u64,
            None => return None,
        }
    } else {
        false
    };
    if off {
        if !rebuild(vault, pool, cfg.dlv.swap_fee_ppm) {
            return None;
        }
        vault.last_rebalance_ms = curr_ms;
        Some(true)
    } else if time {
        vault.last_rebalance_ms = curr_ms;
        Some(true)
    } else {
        Some(false)
    }
}

/// Collects fees, sets the widths of the ranges where new ones are given and regulates the
/// debt. Returns whether the debt was dealt with and whether it changed; `None` where it
/// fails, with vault and pool left partway.
pub fn dispatch_regulate_debt(
    vault: &mut Vault,
    pool: &mut CorePool,
    cfg: &Config,
    target_cr_wad: U256,
    widths: Option<(i32, i32)>,
) -> (r: Option<(bool, bool)>)
    requires
        old(vault).wf(),
        old(pool).wf(),
    ensures
        final(pool).wf(),
        pool_valid(old(pool)@) ==> pool_valid(final(pool)@),
        final(vault).tick_spacing == old(vault).tick_spacing,
        regulate_step(old(vault)@, old(pool)@, *cfg, target_cr_wad@, widths) == (match r {
            Some(x) => Some((final(vault)@, final(pool)@, x)),
            None => None,
        }),
{
    reveal(regulate_step);
    if !cfg.is_regulate_debt || vault.virtual_debt.is_zero() {
        return Some((false, false));
    }
    if !vault.try_collect_fees(pool) {
        return None;
    }
    match widths {
        Some((base, limit)) => {
            if vault.tick_spacing as i64 * 2 > 0x7fff_ffff {
                return None;
            }
            vault.set_dynamic_thresholds(base, limit);
        },
        None => {},
    }
    if cfg.lev_amm.enabled {
        return Some((true, false));
    }
    let what: &'static str = match vault.try_regulate_debt(pool, None, target_cr_wad) {
        Some(x) => x,
        None => return None,
    };
    if same_text(what, "mint") {
        if !vault.try_deploy_idle_to_lp(pool) {
            return None;
        }
        return Some((true, true));
    }
    Some((true, !same_text(what, "noop")))
}

// Whole periods.

/// How often each part has acted, when a part last did, how many events have been
/// replayed, and whether a snapshot is pending.
#[derive(Debug, Clone, Copy)]
pub struct Counters {
    pub tick_count: u64,
    pub alm_calls: u64,
    pub dlv_calls: u64,
    pub regulate_debt_calls: u64,
    pub arb_calls: u64,
    pub lev_amm_calls: u64,
    pub slow_recenter_calls: u64,
    pub last_slow_recenter_ms: i64,
    pub last_idle_snapshot_ms: i64,
    pub event_cursor: usize,
    pub snapshot_pending: bool,
}

impl View for Counters {
    type V = Counts;

    open spec fn view(&self) -> Counts {
        Counts {
            tick: self.tick_count as int,
            alm: self.alm_calls as int,
            dlv: self.dlv_calls as int,
            regulate: self.regulate_debt_calls as int,
            arb: self.arb_calls as int,
            lev: self.lev_amm_calls as int,
            recenter: self.slow_recenter_calls as int,
            last_recenter: self.last_slow_recenter_ms as int,
            last_snapshot: self.last_idle_snapshot_ms as int,
            cursor: self.event_cursor as int,
            pending: self.snapshot_pending,
        }
    }
}

/// Nothing done yet.
pub open spec fn no_counts() -> Counts {
    Counts {
        tick: 0,
        alm: 0,
        dlv: 0,
        regulate: 0,
        arb: 0,
        lev: 0,
        recenter: 0,
        last_recenter: 0,
        last_snapshot: 0,
        cursor: 0,
        pending: false,
    }
}

fn count(n: u64, done: bool) -> (r: Option<u64>)
    ensures
        counted(n as int, done) == (match r {
            Some(m) => Some(m as int),
            None => None,
        }),
{
    if !done {
        Some(n)
    } else if n < u64::MAX {
        Some(n + 1)
    } else {
        None
    }
}

/// A vault with its pool, and what has happened so far.
pub struct Simulation {
    pub vault: Vault,
    pub pool: CorePool,
    pub counters: Counters,
}

impl View for Simulation {
    type V = Sim;

    open spec fn view(&self) -> Sim {
        Sim { vault: self.vault@, pool: self.pool@, counts: self.counters@ }
    }
}

/// Whether a part acted, the price before it and the net value after it.
#[derive(Debug, Clone, Copy)]
pub struct DispatchOutcome {
    pub fired: bool,
    pub pre_sqrt: U256,
    pub nav: U256,
}

impl View for DispatchOutcome {
    type V = Dispatch;

    open spec fn view(&self) -> Dispatch {
        Dispatch { fired: self.fired, sqrt: self.pre_sqrt@, nav: self.nav@ }
    }
}

/// The net value, the price of the volatile token and the ratio of value to debt, if
/// there is a debt.
#[derive(Debug, Clone, Copy)]
pub struct Snapshot {
    pub nav: U256,
    pub price: U256,
    pub cr: Option<U256>,
}

impl View for Snapshot {
    type V = SnapView;

    open spec fn view(&self) -> SnapView {
        SnapView { nav: self.nav@, price: self.price@, cr: opt(self.cr) }
    }
}

/// What the vault is worth; `None` where an amount does not exist.
pub fn take_snapshot(vault: &Vault, pool: &CorePool) -> (r: Option<Snapshot>)
    requires
        pool.wf(),
    ensures
        snapped(vault@, pool@) == (match r {
            Some(s) => Some(s@),
            None => None,
        }),
{
    reveal(snapped);
    let nav: U256 = match vault.try_total_pool_value(pool, None) {
        Some(x) => x,
        None => return None,
    };
    let cr: U256 = match vault.try_collateral_ratio_wad(pool, None) {
        Some(x) => x,
        None => return None,
    };
    Some(
        Snapshot {
            nav,
            price: Vault::volatile_price_wad(
                pool.sqrt_price_x96(),
                vault.pool_config.is_volatile_token0(),
            ),
            cr: if vault.virtual_debt.is_zero() {
                None
            } else {
                Some(cr)
            },
        },
    )
}

/// The window of time that is simulated.
pub fn simulated_window(cfg: &Config) -> (r: (i64, i64))
    ensures
        (r.0 as int, r.1 as int) == window_of(*cfg),
{
    if cfg.is_arb_strategy {
        (cfg.arb.start_ms, cfg.arb.end_ms)
    } else {
        (cfg.start_ms, cfg.end_ms)
    }
}

/// The end of the window, with arbitrage no later than the last outside price.
pub fn clipped_end(cfg: &Config, end_ms: i64, last_price_ms: i64) -> (r: i64)
    ensures
        r == end_with_prices(*cfg, end_ms as int, last_price_ms as int),
{
    if cfg.is_arb_strategy && last_price_ms < end_ms {
        last_price_ms
    } else {
        end_ms
    }
}

/// The time from one period to the next in milliseconds.
pub fn period_step(cfg: &Config) -> (r: i64)
    ensures
        r == cfg.lookup_period * 1000,
{
    cfg.lookup_period as i64 * 1000
}

fn below(count: u64, max: Option<u64>) -> (r: bool)
    ensures
        r == (opt_u64(max) matches Some(m) ==> count < m),
{
    match max {
        Some(m) => count < m,
        None => true,
    }
}

/// The moment of the first period; `None` where the window is empty or no period may run.
pub fn first_period(start_ms: i64, end_ms: i64, max_ticks: Option<u64>) -> (r: Option<i64>)
    ensures
        first_moment(start_ms as int, end_ms as int, opt_u64(max_ticks)) == (match r {
            Some(t) => Some(t as int),
            None => None,
        }),
{
    if start_ms < end_ms && below(0, max_ticks) {
        Some(start_ms)
    } else {
        None
    }
}

/// The moment of the next period; `None` where the end of the window or the maximum is
/// reached.
pub fn next_period(
    curr_ms: i64,
    end_ms: i64,
    step_ms: i64,
    tick_count: u64,
    max_ticks: Option<u64>,
) -> (r: Option<i64>)
    requires
        step_ms >= 0,
    ensures
        next_moment(
            curr_ms as int,
            end_ms as int,
            step_ms as int,
            tick_count as int,
            opt_u64(max_ticks),
        ) == (match r {
            Some(t) => Some(t as int),
            None => None,
        }),
{
    let next: i128 = curr_ms as i128 + step_ms as i128;
    if next < end_ms as i128 && below(tick_count, max_ticks) {
        Some(next as i64)
    } else {
        None
    }
}

impl Simulation {
    /// The vault and the pool are in order.
    pub open spec fn wf(&self) -> bool {
        self.vault.wf() && self.pool.valid()
    }

    pub fn new(vault: Vault, pool: CorePool) -> (r: Self)
        ensures
            r@ == (Sim { vault: vault@, pool: pool@, counts: no_counts() }),
            vault.wf() && pool.valid() ==> r.wf(),
    {
        Simulation {
            vault,
            pool,
            counters: Counters {
                tick_count: 0,
                alm_calls: 0,
                dlv_calls: 0,
                regulate_debt_calls: 0,
                arb_calls: 0,
                lev_amm_calls: 0,
                slow_recenter_calls: 0,
                last_slow_recenter_ms: 0,
                last_idle_snapshot_ms: 0,
                event_cursor: 0,
                snapshot_pending: false,
            },
        }
    }

    /// Counts a new period; false, with nothing changed, where the count has no room left.
    pub fn begin_period(&mut self) -> (ok: bool)
        ensures
            final(self).vault == old(self).vault,
            final(self).pool == old(self).pool,
            match counted(old(self)@.counts.tick, true) {
                Some(tick) => ok && final(self)@.counts == (Counts { tick, ..old(self)@.counts }),
                None => !ok && *final(self) == *old(self),
            },
    {
        match count(self.counters.tick_count, true) {
            Some(n) => {
                self.counters.tick_count = n;
                true
            },
            None => false,
        }
    }

    /// Runs the first part of a period with arbitrage: the arbitrage itself, then the
    /// leverage market maker. `None` where it fails, with all left partway.
    pub fn open_arb_period(
        &mut self,
        cfg: &Config,
        target_cr_wad: U256,
        outside: Option<U256>,
        fee: u32,
    ) -> (r: Option<(ArbOutcome, LevOutcome)>)
        requires
            old(self).wf(),
        ensures
            final(self).wf(),
            arb_opened(old(self)@, *cfg, target_cr_wad@, opt(outside), fee as int) == (match r {
                Some((a, l)) => Some((final(self)@, a@, l@)),
                None => None,
            }),
    {
        let a: ArbOutcome = match dispatch_arb(
            &mut self.vault,
            &mut self.pool,
            cfg,
            outside,
            fee,
        ) {
            Some(x) => x,
            None => return None,
        };
        let l: LevOutcome = match dispatch_lev_amm(
            &mut self.vault,
            &mut self.pool,
            cfg,
            target_cr_wad,
            outside,
        ) {
            Some(x) => x,
            None => return None,
        };
        let arb_calls: u64 = match count(self.counters.arb_calls, a.fired) {
            Some(n) => n,
            None => return None,
        };
        let lev_amm_calls: u64 = match count(self.counters.lev_amm_calls, cfg.lev_amm.enabled) {
            Some(n) => n,
            None => return None,
        };
        self.counters.arb_calls = arb_calls;
        self.counters.lev_amm_calls = lev_amm_calls;
        Some((a, l))
    }

    /// Whether a recentering is due.
    pub fn is_recenter_due(&self, cfg: &Config, curr_ms: i64) -> (r: bool)
        ensures
            r == recenter_due(cfg.slow_recenter, self@.counts.last_recenter, curr_ms as int),
            r == (cfg.slow_recenter.enabled && (self.counters.last_slow_recenter_ms == 0 || curr_ms
                - self.counters.last_slow_recenter_ms >= 1000
                * cfg.slow_recenter.trigger_interval_seconds)),
    {
        let last: i64 = self.counters.last_slow_recenter_ms;
        cfg.slow_recenter.enabled && (last == 0 || curr_ms as i128 - last as i128
            >= cfg.slow_recenter.trigger_interval_seconds as i128 * 1000)
    }

    fn recenter(&mut self, cfg: &Config, curr_ms: i64, deviation: Deviation) -> (ok: bool)
        requires
            old(self).wf(),
        ensures
            final(self).wf(),
            recenter_dispatched(old(self)@, *cfg, curr_ms as int, deviation) == (if ok {
                Some(final(self)@)
            } else {
                None
            }),
    {
        reveal(recenter_dispatched);
        if !self.is_recenter_due(cfg, curr_ms) {
            return true;
        }
        let moved: i64 = match self.vault.try_slow_recenter(
            &mut self.pool,
            &cfg.slow_recenter,
            deviation,
        ) {
            Some(x) => x,
            None => return false,
        };
        match count(self.counters.slow_recenter_calls, moved > 0) {
            Some(n) => {
                self.counters.slow_recenter_calls = n;
                self.counters.last_slow_recenter_ms = curr_ms;
                true
            },
            None => false,
        }
    }

    fn run_dlv(&mut self, cfg: &Config, target_cr_wad: U256, curr_ms: i64) -> (r: Option<
        DispatchOutcome,
    >)
        requires
            old(self).wf(),
        ensures
            final(self).wf(),
            final(self).counters.event_cursor == old(self).counters.event_cursor,
            dlv_dispatched(old(self)@, *cfg, target_cr_wad@, curr_ms as int) == (match r {
                Some(d) => Some((final(self)@, d@)),
                None => None,
            }),
    {
        reveal(dlv_dispatched);
        let pre_sqrt: U256 = self.pool.sqrt_price_x96();
        let fired: bool = match dispatch_dlv(
            &mut self.vault,
            &mut self.pool,
            cfg,
            target_cr_wad,
            curr_ms,
        ) {
            Some(x) => x,
            None => return None,
        };
        let nav: U256 = match self.vault.try_total_pool_value(&self.pool, None) {
            Some(x) => x,
            None => return None,
        };
        match count(self.counters.dlv_calls, fired) {
            Some(n) => {
                self.counters.dlv_calls = n;
                Some(DispatchOutcome { fired, pre_sqrt, nav })
            },
            None => None,
        }
    }

    fn run_alm(&mut self, cfg: &Config, curr_ms: i64) -> (r: Option<DispatchOutcome>)
        requires
            old(self).wf(),
        ensures
            final(self).wf(),
            final(self).counters.event_cursor == old(self).counters.event_cursor,
            alm_dispatched(old(self)@, *cfg, curr_ms as int) == (match r {
                Some(d) => Some((final(self)@, d@)),
                None => None,
            }),
    {
        reveal(alm_dispatched);
        let pre_sqrt: U256 = self.pool.sqrt_price_x96();
        let fired: bool = match dispatch_alm(
            &mut self.vault,
            &mut self.pool,
            cfg,
            curr_ms,
            self.counters.tick_count,
        ) {
            Some(x) => x,
            None => return None,
        };
        let nav: U256 = match self.vault.try_total_pool_value(&self.pool, None) {
            Some(x) => x,
            None => return None,
        };
        match count(self.counters.alm_calls, fired) {
            Some(n) => {
                self.counters.alm_calls = n;
                Some(DispatchOutcome { fired, pre_sqrt, nav })
            },
            None => None,
        }
    }

    fn run_regulate(&mut self, cfg: &Config, target_cr_wad: U256, widths: Option<(i32, i32)>) -> (r:
        Option<bool>)
        requires
            old(self).wf(),
        ensures
            final(self).wf(),
            final(self).counters.event_cursor == old(self).counters.event_cursor,
            regulate_dispatched(old(self)@, *cfg, target_cr_wad@, widths) == (match r {
                Some(changed) => Some((final(self)@, changed)),
                None => None,
            }),
    {
        reveal(regulate_dispatched);
        let (dealt, changed) = match dispatch_regulate_debt(
            &mut self.vault,
            &mut self.pool,
            cfg,
            target_cr_wad,
            widths,
        ) {
            Some(x) => x,
            None => return None,
        };
        match count(self.counters.regulate_debt_calls, dealt) {
            Some(n) => {
                self.counters.regulate_debt_calls = n;
                Some(changed)
            },
            None => None,
        }
    }

    /// Runs the second part of a period with arbitrage: recentering where it is due, then
    /// the debt, the holdings and, last, the regulation of the debt. Returns what the debt
    /// and the holdings did and whether the regulation changed the debt; `None` where it
    /// fails, with all left partway.
    pub fn close_arb_period(
        &mut self,
        cfg: &Config,
        target_cr_wad: U256,
        curr_ms: i64,
        deviation: Deviation,
        widths: Option<(i32, i32)>,
    ) -> (r: Option<(DispatchOutcome, DispatchOutcome, bool)>)
        requires
            old(self).wf(),
        ensures
            final(self).wf(),
            arb_closed(
                old(self)@,
                *cfg,
                target_cr_wad@,
                curr_ms as int,
                deviation,
                widths,
            ) == (match r {
                Some((d, a, changed)) => Some((final(self)@, d@, a@, changed)),
                None => None,
            }),
    {
        if !self.recenter(cfg, curr_ms, deviation) {
            return None;
        }
        let d: DispatchOutcome = match self.run_dlv(cfg, target_cr_wad, curr_ms) {
            Some(x) => x,
            None => return None,
        };
        let a: DispatchOutcome = match self.run_alm(cfg, curr_ms) {
            Some(x) => x,
            None => return None,
        };
        match self.run_regulate(cfg, target_cr_wad, widths) {
            Some(changed) => Some((d, a, changed)),
            None => None,
        }
    }

    /// Runs a period with recorded events: the regulation of the debt, the debt, the
    /// holdings, then the events before the next period. Returns what the debt and the
    /// holdings did, whether the regulation changed the debt, and what the vault was worth
    /// before the events; `None` where it fails, with all left partway.
    pub fn run_replay_period(
        &mut self,
        cfg: &Config,
        target_cr_wad: U256,
        curr_ms: i64,
        widths: Option<(i32, i32)>,
        events: &Vec<PoolEvent>,
    ) -> (r: Option<(DispatchOutcome, DispatchOutcome, bool, Snapshot)>)
        requires
            old(self).wf(),
            old(self).counters.event_cursor <= events.len(),
        ensures
            final(self).wf(),
            final(self).counters.event_cursor <= events.len(),
            replay_period(
                old(self)@,
                *cfg,
                target_cr_wad@,
                curr_ms as int,
                widths,
                event_views(events@),
            ) == (match r {
                Some((d, a, changed, s)) => Some((final(self)@, d@, a@, changed, s@)),
                None => None,
            }),
    {
        let changed: bool = match self.run_regulate(cfg, target_cr_wad, widths) {
            Some(x) => x,
            None => return None,
        };
        let d: DispatchOutcome = match self.run_dlv(cfg, target_cr_wad, curr_ms) {
            Some(x) => x,
            None => return None,
        };
        self.counters.snapshot_pending = !d.fired;
        let a: DispatchOutcome = match self.run_alm(cfg, curr_ms) {
            Some(x) => x,
            None => return None,
        };
        let s: Snapshot = match take_snapshot(&self.vault, &self.pool) {
            Some(x) => x,
            None => return None,
        };
        let until: i128 = curr_ms as i128 + cfg.lookup_period as i128 * 1000;
        let end: usize = replay_until(&mut self.pool, events, self.counters.event_cursor, until);
        self.counters.event_cursor = end;
        Some((d, a, changed, s))
    }

    /// Whether a snapshot is due; if so, the time of the last one is set.
    pub fn check_snapshot(&mut self, curr_ms: i64) -> (due: bool)
        ensures
            due == snapshot_due(old(self)@.counts.last_snapshot, curr_ms as int),
            due == (curr_ms - old(self).counters.last_idle_snapshot_ms >= 3_600_000),
            final(self).vault == old(self).vault,
            final(self).pool == old(self).pool,
            final(self)@.counts == (if due {
                Counts { last_snapshot: curr_ms as int, ..old(self)@.counts }
            } else {
                old(self)@.counts
            }),
    {
        let due: bool = curr_ms as i128 - self.counters.last_idle_snapshot_ms as i128 >= 3_600_000;
        if due {
            self.counters.last_idle_snapshot_ms = curr_ms;
        }
        due
    }
}

} // verus!
