//! Rows of the record of a simulation, one JSON object each.
use crate::text::{dec, dec_signed, push_dec_i64};
use crate::types::{push_dec_u256, I256, U256};
use vstd::prelude::*;
use vstd::string::*;

verus! {

/// One row of the record.
#[derive(Debug)]
pub struct RebalanceLogRow {
    pub timestamp_ms: i64,
    pub date: String,
    pub rebalance_type: String,
    /// The pool's price.
    pub raw_pool_price: U256,
    /// The price by which this row is valued.
    pub non_volatile_asset_price: U256,
    /// The outside price, as it is written.
    pub external_price: String,
    /// The net value before this period.
    pub prev_total_pool_value: U256,
    /// The net value after it.
    pub after_total_pool_value: U256,
    /// The ratio of value to debt in hundredths of a per cent.
    pub prev_collateral_ratio: i64,
    pub after_collateral_ratio: i64,
    pub lp_ratio: U256,
    pub swap_fee_stable: U256,
    pub alm_swap_fee_stable: U256,
    pub accumulated_swap_fees0: U256,
    pub accumulated_swap_fees1: U256,
    pub debt: U256,
    pub idle0: U256,
    pub idle1: U256,
    pub total0: U256,
    pub total1: U256,
    pub wide_amount0: U256,
    pub wide_amount1: U256,
    pub base_amount0: U256,
    pub base_amount1: U256,
    pub limit_amount0: U256,
    pub limit_amount1: U256,
    pub lev_amm_collateral: U256,
    pub lev_amm_notional: U256,
    pub lev_amm_debt: U256,
    pub lev_amm_fee_revenue: U256,
    pub volatile_hold_value_stable: U256,
    /// In ten-thousandths.
    pub realized_il: I256,
    pub swap_fees_gained_this_period: U256,
    /// What was borrowed, or repaid where it is negative.
    pub regulate_debt_amount: I256,
    pub current_pps: U256,
    pub fundamental_pps: U256,
    pub equilibrium_price_wad: U256,
    pub arb_profit_stable: U256,
    /// How far the prices were apart, as it is written.
    pub arb_deviation_bps: String,
    pub wide0: i32,
    pub wide1: i32,
    pub base0: i32,
    pub base1: i32,
    pub limit0: i32,
    pub limit1: i32,
}

/// A text in quotation marks.
pub open spec fn quoted(s: Seq<char>) -> Seq<char> {
    "\""@ + s + "\""@
}

/// A text with a named value appended.
pub open spec fn with_value(s: Seq<char>, comma: bool, key: Seq<char>, value: Seq<char>) -> Seq<
    char,
> {
    s + (if comma {
        ",\""@
    } else {
        "\""@
    }) + key + "\":"@ + value
}

fn push_key(out: &mut String, comma: bool, key: &str)
    ensures
        final(out)@ == with_value(old(out)@, comma, key@, seq![]),
{
    let ghost start = out@;
    if comma {
        out.append(",\"");
    } else {
        out.append("\"");
    }
    out.append(key);
    out.append("\":");
    assert(out@ =~= with_value(start, comma, key@, seq![]));
}

/// Appends a named value as it is written.
fn push_raw(out: &mut String, comma: bool, key: &str, value: &str)
    ensures
        final(out)@ == with_value(old(out)@, comma, key@, value@),
{
    let ghost start = out@;
    push_key(out, comma, key);
    out.append(value);
    assert(out@ =~= with_value(start, comma, key@, value@));
}

/// Appends a named text.
fn push_text(out: &mut String, comma: bool, key: &str, value: &str)
    ensures
        final(out)@ == with_value(old(out)@, comma, key@, quoted(value@)),
{
    let ghost start = out@;
    push_key(out, comma, key);
    out.append("\"");
    out.append(value);
    out.append("\"");
    assert(out@ =~= with_value(start, comma, key@, quoted(value@)));
}

/// Appends a named amount.
fn push_amount(out: &mut String, key: &str, value: U256)
    ensures
        final(out)@ == with_value(old(out)@, true, key@, quoted(dec(value@))),
{
    let ghost start = out@;
    push_key(out, true, key);
    out.append("\"");
    push_dec_u256(out, value);
    out.append("\"");
    assert(out@ =~= with_value(start, true, key@, quoted(dec(value@))));
}

/// Appends a named signed amount.
fn push_signed(out: &mut String, key: &str, value: I256)
    ensures
        final(out)@ == with_value(old(out)@, true, key@, quoted(dec_signed(value@))),
{
    let ghost start = out@;
    let text: String = value.to_dec_string();
    push_text(out, true, key, text.as_str());
    assert(out@ =~= with_value(start, true, key@, quoted(dec_signed(value@))));
}

/// Appends a named number.
fn push_number(out: &mut String, key: &str, value: i64)
    ensures
        final(out)@ == with_value(old(out)@, true, key@, dec_signed(value as int)),
{
    let ghost start = out@;
    push_key(out, true, key);
    push_dec_i64(out, value);
    assert(out@ =~= with_value(start, true, key@, dec_signed(value as int)));
}

/// What happened, the prices and the values.
#[verifier::opaque]
pub open spec fn with_heading(s: Seq<char>, r: RebalanceLogRow) -> Seq<char> {
    let s0 = with_value(s, false, "date"@, quoted(r.date@));
    let s1 = with_value(s0, true, "rebalanceType"@, quoted(r.rebalance_type@));
    let s2 = with_value(s1, true, "rawPoolPrice"@, quoted(dec(r.raw_pool_price@)));
    let s3 = with_value(s2, true, "nonVolatileAssetPrice"@, quoted(dec(r.non_volatile_asset_price@)));
    let s4 = with_value(s3, true, "externalPrice"@, r.external_price@);
    let s5 = with_value(s4, true, "prevTotalPoolValue"@, quoted(dec(r.prev_total_pool_value@)));
    let s6 = with_value(s5, true, "afterTotalPoolValue"@, quoted(dec(r.after_total_pool_value@)));
    let s7 = with_value(s6, true, "prevCollateralRatio"@, dec_signed(r.prev_collateral_ratio as int));
    with_value(s7, true, "afterCollateralRatio"@, dec_signed(r.after_collateral_ratio as int))
}

/// The fees, the debt and what is held.
#[verifier::opaque]
pub open spec fn with_balances(s: Seq<char>, r: RebalanceLogRow) -> Seq<char> {
    let s0 = with_value(s, true, "lpRatio"@, quoted(dec(r.lp_ratio@)));
    let s1 = with_value(s0, true, "swapFeeStable"@, quoted(dec(r.swap_fee_stable@)));
    let s2 = with_value(s1, true, "almSwapFeeStable"@, quoted(dec(r.alm_swap_fee_stable@)));
    let s3 = with_value(s2, true, "accumulatedSwapFees0"@, quoted(dec(r.accumulated_swap_fees0@)));
    let s4 = with_value(s3, true, "accumulatedSwapFees1"@, quoted(dec(r.accumulated_swap_fees1@)));
    let s5 = with_value(s4, true, "debt"@, quoted(dec(r.debt@)));
    let s6 = with_value(s5, true, "idle0"@, quoted(dec(r.idle0@)));
    let s7 = with_value(s6, true, "idle1"@, quoted(dec(r.idle1@)));
    let s8 = with_value(s7, true, "total0"@, quoted(dec(r.total0@)));
    with_value(s8, true, "total1"@, quoted(dec(r.total1@)))
}

/// What each range holds, and the leverage market maker.
#[verifier::opaque]
pub open spec fn with_ranges(s: Seq<char>, r: RebalanceLogRow) -> Seq<char> {
    let s0 = with_value(s, true, "wideAmount0"@, quoted(dec(r.wide_amount0@)));
    let s1 = with_value(s0, true, "wideAmount1"@, quoted(dec(r.wide_amount1@)));
    let s2 = with_value(s1, true, "baseAmount0"@, quoted(dec(r.base_amount0@)));
    let s3 = with_value(s2, true, "baseAmount1"@, quoted(dec(r.base_amount1@)));
    let s4 = with_value(s3, true, "limitAmount0"@, quoted(dec(r.limit_amount0@)));
    let s5 = with_value(s4, true, "limitAmount1"@, quoted(dec(r.limit_amount1@)));
    let s6 = with_value(s5, true, "levAmmCollateral"@, quoted(dec(r.lev_amm_collateral@)));
    let s7 = with_value(s6, true, "levAmmNotional"@, quoted(dec(r.lev_amm_notional@)));
    let s8 = with_value(s7, true, "levAmmDebt"@, quoted(dec(r.lev_amm_debt@)));
    with_value(s8, true, "levAmmFeeRevenue"@, quoted(dec(r.lev_amm_fee_revenue@)))
}

/// What was gained.
#[verifier::opaque]
pub open spec fn with_metrics(s: Seq<char>, r: RebalanceLogRow) -> Seq<char> {
    let s0 = with_value(s, true, "volatileHoldValueStable"@, quoted(dec(r.volatile_hold_value_stable@)));
    let s1 = with_value(s0, true, "realizedIL"@, quoted(dec_signed(r.realized_il@)));
    let s2 = with_value(s1, true, "swapFeesGainedThisPeriod"@, quoted(dec(r.swap_fees_gained_this_period@)));
    let s3 = with_value(s2, true, "regulateDebtAmount"@, quoted(dec_signed(r.regulate_debt_amount@)));
    let s4 = with_value(s3, true, "currentPPS"@, quoted(dec(r.current_pps@)));
    let s5 = with_value(s4, true, "fundamentalPPS"@, quoted(dec(r.fundamental_pps@)));
    let s6 = with_value(s5, true, "equilibriumPriceWad"@, quoted(dec(r.equilibrium_price_wad@)));
    let s7 = with_value(s6, true, "arbProfitStable"@, quoted(dec(r.arb_profit_stable@)));
    with_value(s7, true, "arbDeviationBps"@, r.arb_deviation_bps@)
}

/// The ticks of the ranges.
#[verifier::opaque]
pub open spec fn with_ticks(s: Seq<char>, r: RebalanceLogRow) -> Seq<char> {
    let s0 = with_value(s, true, "wide0"@, dec_signed(r.wide0 as int));
    let s1 = with_value(s0, true, "wide1"@, dec_signed(r.wide1 as int));
    let s2 = with_value(s1, true, "base0"@, dec_signed(r.base0 as int));
    let s3 = with_value(s2, true, "base1"@, dec_signed(r.base1 as int));
    let s4 = with_value(s3, true, "limit0"@, dec_signed(r.limit0 as int));
    with_value(s4, true, "limit1"@, dec_signed(r.limit1 as int))
}

/// The row as a line of JSON.
pub open spec fn row_text(r: RebalanceLogRow) -> Seq<char> {
    with_ticks(with_metrics(with_ranges(with_balances(with_heading("{"@, r), r), r), r), r)
        + "}\n"@
}

impl RebalanceLogRow {
    fn push_heading(&self, out: &mut String)
        ensures
            final(out)@ == with_heading(old(out)@, *self),
    {
        reveal(with_heading);
        push_text(out, false, "date", self.date.as_str());
        push_text(out, true, "rebalanceType", self.rebalance_type.as_str());
        push_amount(out, "rawPoolPrice", self.raw_pool_price);
        push_amount(out, "nonVolatileAssetPrice", self.non_volatile_asset_price);
        push_raw(out, true, "externalPrice", self.external_price.as_str());
        push_amount(out, "prevTotalPoolValue", self.prev_total_pool_value);
        push_amount(out, "afterTotalPoolValue", self.after_total_pool_value);
        push_number(out, "prevCollateralRatio", self.prev_collateral_ratio);
        push_number(out, "afterCollateralRatio", self.after_collateral_ratio);
    }

    fn push_balances(&self, out: &mut String)
        ensures
            final(out)@ == with_balances(old(out)@, *self),
    {
        reveal(with_balances);
        push_amount(out, "lpRatio", self.lp_ratio);
        push_amount(out, "swapFeeStable", self.swap_fee_stable);
        push_amount(out, "almSwapFeeStable", self.alm_swap_fee_stable);
        push_amount(out, "accumulatedSwapFees0", self.accumulated_swap_fees0);
        push_amount(out, "accumulatedSwapFees1", self.accumulated_swap_fees1);
        push_amount(out, "debt", self.debt);
        push_amount(out, "idle0", self.idle0);
        push_amount(out, "idle1", self.idle1);
        push_amount(out, "total0", self.total0);
        push_amount(out, "total1", self.total1);
    }

    fn push_ranges(&self, out: &mut String)
        ensures
            final(out)@ == with_ranges(old(out)@, *self),
    {
        reveal(with_ranges);
        push_amount(out, "wideAmount0", self.wide_amount0);
        push_amount(out, "wideAmount1", self.wide_amount1);
        push_amount(out, "baseAmount0", self.base_amount0);
        push_amount(out, "baseAmount1", self.base_amount1);
        push_amount(out, "limitAmount0", self.limit_amount0);
        push_amount(out, "limitAmount1", self.limit_amount1);
        push_amount(out, "levAmmCollateral", self.lev_amm_collateral);
        push_amount(out, "levAmmNotional", self.lev_amm_notional);
        push_amount(out, "levAmmDebt", self.lev_amm_debt);
        push_amount(out, "levAmmFeeRevenue", self.lev_amm_fee_revenue);
    }

    fn push_metrics(&self, out: &mut String)
        ensures
            final(out)@ == with_metrics(old(out)@, *self),
    {
        reveal(with_metrics);
        push_amount(out, "volatileHoldValueStable", self.volatile_hold_value_stable);
        push_signed(out, "realizedIL", self.realized_il);
        push_amount(out, "swapFeesGainedThisPeriod", self.swap_fees_gained_this_period);
        push_signed(out, "regulateDebtAmount", self.regulate_debt_amount);
        push_amount(out, "currentPPS", self.current_pps);
        push_amount(out, "fundamentalPPS", self.fundamental_pps);
        push_amount(out, "equilibriumPriceWad", self.equilibrium_price_wad);
        push_amount(out, "arbProfitStable", self.arb_profit_stable);
        push_raw(out, true, "arbDeviationBps", self.arb_deviation_bps.as_str());
    }

    fn push_ticks(&self, out: &mut String)
        ensures
            final(out)@ == with_ticks(old(out)@, *self),
    {
        reveal(with_ticks);
        push_number(out, "wide0", self.wide0 as i64);
        push_number(out, "wide1", self.wide1 as i64);
        push_number(out, "base0", self.base0 as i64);
        push_number(out, "base1", self.base1 as i64);
        push_number(out, "limit0", self.limit0 as i64);
        push_number(out, "limit1", self.limit1 as i64);
    }

    /// The row as a line of JSON.
    pub fn to_json_line(&self) -> (r: String)
        ensures
            r@ == row_text(*self),
    {
        let mut out: String = "{".to_owned();
        self.push_heading(&mut out);
        self.push_balances(&mut out);
        self.push_ranges(&mut out);
        self.push_metrics(&mut out);
        self.push_ticks(&mut out);
        out.append("}\n");
        out
    }
}

} // verus!
