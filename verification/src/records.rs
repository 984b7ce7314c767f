//! What is recorded of a period: the values of the vault that returns are computed from,
//! and a row of the log.
use crate::arith::{div_unique, p128};
use crate::core_pool::CorePool;
use crate::output::RebalanceLogRow;
use crate::sqrt_price_math::opt;
use crate::strategy::{ArbOutcome, DispatchOutcome, LevOutcome, Snapshot};
use crate::strategy_model::{
    entry_if, late_snap, period_entries, snap_entry, EntrySource, EntryView, RatioView, SnapView,
};
use crate::types::{I256, U256};
use crate::vault::{is_ranges, range_info, Vault};
use crate::vault_math::{pool_price, price_of};
use crate::vault_model::{net_value, stable_ratio, totals, VaultView};
use vstd::prelude::*;

verus! {

/// A ratio of value to debt: as it was computed (none without a debt), or as a net value
/// and a debt.
#[derive(Debug, Clone, Copy)]
pub enum DebtRatio {
    Ratio(Option<U256>),
    Parts(U256, U256),
}

impl View for DebtRatio {
    type V = RatioView;

    open spec fn view(&self) -> RatioView {
        match self {
            DebtRatio::Ratio(r) => RatioView::Ratio(opt(*r)),
            DebtRatio::Parts(nav, debt) => RatioView::Parts(nav@, debt@),
        }
    }
}

/// A value of the vault: the net value, the price to divide it by, and the ratio of value
/// to debt.
#[derive(Debug, Clone, Copy)]
pub struct RiskEntry {
    pub source: EntrySource,
    pub nav: U256,
    pub price: U256,
    pub ratio: DebtRatio,
}

impl View for RiskEntry {
    type V = EntryView;

    open spec fn view(&self) -> EntryView {
        EntryView {
            source: self.source,
            nav: self.nav@,
            price: self.price@,
            ratio: self.ratio@,
        }
    }
}

/// Entries by their views.
pub open spec fn entry_views(s: Seq<RiskEntry>) -> Seq<EntryView> {
    Seq::new(s.len(), |i: int| s[i]@)
}

fn push_if(out: &mut Vec<RiskEntry>, applies: bool, e: RiskEntry)
    ensures
        entry_views(final(out)@) == entry_views(old(out)@) + entry_if(applies, e@),
{
    let ghost start = out@;
    proof {
        div_unique(e.price@, p128(), e.price.hi as int, e.price.lo as int);
    }
    if applies && e.price.lo != 0 {
        out.push(e);
        assert(entry_views(out@) =~= entry_views(start) + seq![e@]);
    } else {
        assert(entry_views(out@) =~= entry_views(start) + Seq::<EntryView>::empty());
    }
}

fn snap(nav: U256, price: U256, cr: Option<U256>) -> (r: RiskEntry)
    ensures
        r@ == snap_entry(nav@, price@, opt(cr)),
{
    RiskEntry { source: EntrySource::Snap, nav, price, ratio: DebtRatio::Ratio(cr) }
}

/// An optional snapshot by its view.
pub open spec fn opt_snap(s: Option<Snapshot>) -> Option<SnapView> {
    match s {
        Some(x) => Some(x@),
        None => None,
    }
}

fn push_late_snap(
    out: &mut Vec<RiskEntry>,
    applies: bool,
    before: Option<Snapshot>,
    after: &Snapshot,
)
    ensures
        entry_views(final(out)@) == entry_views(old(out)@) + late_snap(
            applies,
            opt_snap(before),
            after@,
        ),
{
    match before {
        Some(b) => {
            proof {
                div_unique(b.price@, p128(), b.price.hi as int, b.price.lo as int);
            }
            if b.price.lo != 0 {
                push_if(out, applies, snap(b.nav, b.price, b.cr));
            } else {
                push_if(out, applies, snap(after.nav, after.price, b.cr));
            }
        },
        None => {
            push_if(out, applies, snap(after.nav, after.price, after.cr));
        },
    }
}

/// The entries of a period, in order. A snapshot that is due comes first, by the values at
/// the start, where it was pending and the debt was not changed; otherwise last.
pub fn risk_entries(
    vol0: bool,
    due: bool,
    pending_at_start: bool,
    debt_changed: bool,
    start: &Snapshot,
    arb: &ArbOutcome,
    lev: &LevOutcome,
    dlv: &DispatchOutcome,
    alm: &DispatchOutcome,
    before: Option<Snapshot>,
    after: &Snapshot,
) -> (r: Vec<RiskEntry>)
    ensures
        entry_views(r@) == period_entries(
            vol0,
            due,
            pending_at_start && !debt_changed,
            start@,
            arb@,
            lev@,
            dlv@,
            alm@,
            opt_snap(before),
            after@,
        ),
{
    let early: bool = pending_at_start && !debt_changed;
    let mut out: Vec<RiskEntry> = Vec::new();
    assert(entry_views(out@) =~= Seq::<EntryView>::empty());
    push_if(&mut out, due && early, snap(start.nav, start.price, start.cr));
    assert(entry_views(out@) =~= entry_if(
        due && early,
        snap_entry(start@.nav, start@.price, start@.cr),
    ));
    push_if(
        &mut out,
        arb.fired,
        RiskEntry {
            source: EntrySource::Arb,
            nav: arb.nav,
            price: Vault::volatile_price_wad(arb.pre_sqrt, vol0),
            ratio: DebtRatio::Parts(arb.nav, arb.debt),
        },
    );
    push_if(
        &mut out,
        lev.fired,
        RiskEntry {
            source: EntrySource::LevAmm,
            nav: lev.nav,
            price: after.price,
            ratio: DebtRatio::Parts(lev.nav, lev.debt),
        },
    );
    push_if(
        &mut out,
        dlv.fired,
        RiskEntry {
            source: EntrySource::Dlv,
            nav: dlv.nav,
            price: Vault::volatile_price_wad(dlv.pre_sqrt, vol0),
            ratio: DebtRatio::Ratio(after.cr),
        },
    );
    push_if(
        &mut out,
        alm.fired,
        RiskEntry {
            source: EntrySource::Alm,
            nav: alm.nav,
            price: Vault::volatile_price_wad(alm.pre_sqrt, vol0),
            ratio: DebtRatio::Ratio(after.cr),
        },
    );
    push_late_snap(&mut out, due && !early, before, after);
    out
}

/// The row of a period: what the vault holds, owes and is worth. What is not derived is
/// zero.
pub open spec fn is_row(
    r: RebalanceLogRow,
    v: VaultView,
    price: int,
    nav: int,
    lp_ratio: int,
    total: (int, int),
) -> bool {
    &&& r.rebalance_type@ == "SNAPSHOT"@
    &&& r.raw_pool_price@ == price
    &&& r.non_volatile_asset_price@ == price
    &&& r.prev_total_pool_value@ == 0
    &&& r.after_total_pool_value@ == nav
    &&& r.prev_collateral_ratio == 0
    &&& r.lp_ratio@ == lp_ratio
    &&& r.swap_fee_stable@ == 0
    &&& r.alm_swap_fee_stable@ == 0
    &&& r.accumulated_swap_fees0@ == v.fees0
    &&& r.accumulated_swap_fees1@ == v.fees1
    &&& r.debt@ == v.debt
    &&& r.idle0@ == v.idle0
    &&& r.idle1@ == v.idle1
    &&& (r.total0@, r.total1@) == total
    &&& r.lev_amm_collateral@ == v.collateral
    &&& r.lev_amm_notional@ == v.notional
    &&& r.lev_amm_debt@ == (if v.notional > 0 {
        v.debt
    } else {
        0
    })
    &&& r.lev_amm_fee_revenue@ == v.revenue
    &&& r.volatile_hold_value_stable@ == 0
    &&& r.realized_il@ == 0
    &&& r.swap_fees_gained_this_period@ == 0
    &&& r.regulate_debt_amount@ == 0
    &&& r.current_pps@ == 0
    &&& r.fundamental_pps@ == 0
    &&& r.equilibrium_price_wad@ == 0
}

/// The amounts and the ticks of the ranges in a row.
pub open spec fn has_row_ranges(r: RebalanceLogRow, v: VaultView, price: int) -> bool {
    &&& is_ranges(
        seq![
            (r.wide_amount0, r.wide_amount1),
            (r.base_amount0, r.base_amount1),
            (r.limit_amount0, r.limit_amount1),
        ],
        v,
        price,
    )
    &&& (r.wide0 as int, r.wide1 as int) == (range_info(v.wide).0, range_info(v.wide).1)
    &&& (r.base0 as int, r.base1 as int) == (range_info(v.base).0, range_info(v.base).1)
    &&& (r.limit0 as int, r.limit1 as int) == (range_info(v.limit).0, range_info(v.limit).1)
}

/// The row of a period; `None` where an amount does not exist. The outside price, the
/// deviation from it and the ratio of value to debt are given.
pub fn log_row(
    vault: &Vault,
    pool: &CorePool,
    timestamp_ms: i64,
    date: String,
    external_price: String,
    after_collateral_ratio: i64,
    arb_profit_stable: U256,
    arb_deviation_bps: String,
) -> (r: Option<RebalanceLogRow>)
    requires
        pool.wf(),
    ensures
        match r {
            Some(row) => {
                &&& row.timestamp_ms == timestamp_ms
                &&& row.date == date
                &&& row.external_price == external_price
                &&& row.after_collateral_ratio == after_collateral_ratio
                &&& row.arb_profit_stable == arb_profit_stable
                &&& row.arb_deviation_bps == arb_deviation_bps
                &&& net_value(vault@, pool@, None) is Some
                &&& stable_ratio(vault@, pool@, None) is Some
                &&& totals(vault@, pool@, false) is Some
                &&& is_row(
                    row,
                    vault@,
                    price_of(pool@.price),
                    net_value(vault@, pool@, None)->0,
                    stable_ratio(vault@, pool@, None)->0,
                    totals(vault@, pool@, false)->0,
                )
                &&& has_row_ranges(row, vault@, pool@.price)
            },
            None => net_value(vault@, pool@, None) is None || stable_ratio(vault@, pool@, None)
                is None || totals(vault@, pool@, false) is None,
        },
{
    let nav: U256 = match vault.try_total_pool_value(pool, None) {
        Some(x) => x,
        None => return None,
    };
    let lp_ratio: U256 = match vault.try_lp_ratio(pool, None) {
        Some(x) => x,
        None => return None,
    };
    let (total0, total1) = match vault.try_totals(pool, pool.sqrt_price_x96(), false) {
        Some(x) => x,
        None => return None,
    };
    let ranges: [(U256, U256); 3] = match vault.try_per_range_amounts(pool, None) {
        Some(x) => x,
        None => return None,
    };
    let price: U256 = pool_price(pool.sqrt_price_x96());
    let zero: U256 = U256::ZERO();
    let (wide0, wide1, _) = vault.wide_info();
    let (base0, base1, _) = vault.base_info();
    let (limit0, limit1, _) = vault.limit_info();
    Some(
        RebalanceLogRow {
            timestamp_ms,
            date,
            rebalance_type: "SNAPSHOT".to_owned(),
            raw_pool_price: price,
            non_volatile_asset_price: price,
            external_price,
            prev_total_pool_value: zero,
            after_total_pool_value: nav,
            prev_collateral_ratio: 0,
            after_collateral_ratio,
            lp_ratio,
            swap_fee_stable: zero,
            alm_swap_fee_stable: zero,
            accumulated_swap_fees0: vault.accumulated_fees0,
            accumulated_swap_fees1: vault.accumulated_fees1,
            debt: vault.virtual_debt,
            idle0: vault.idle0,
            idle1: vault.idle1,
            total0,
            total1,
            wide_amount0: ranges[0].0,
            wide_amount1: ranges[0].1,
            base_amount0: ranges[1].0,
            base_amount1: ranges[1].1,
            limit_amount0: ranges[2].0,
            limit_amount1: ranges[2].1,
            lev_amm_collateral: vault.lev_amm_collateral,
            lev_amm_notional: vault.lev_amm_notional,
            lev_amm_debt: if vault.lev_amm_notional.is_zero() {
                zero
            } else {
                vault.virtual_debt
            },
            lev_amm_fee_revenue: vault.lev_amm_fee_revenue,
            volatile_hold_value_stable: zero,
            realized_il: I256::ZERO(),
            swap_fees_gained_this_period: zero,
            regulate_debt_amount: I256::ZERO(),
            current_pps: zero,
            fundamental_pps: zero,
            equilibrium_price_wad: zero,
            arb_profit_stable,
            arb_deviation_bps,
            wide0,
            wide1,
            base0,
            base1,
            limit0,
            limit1,
        },
    )
}

} // verus!
