//! The settings of a simulation, made from named texts.
use crate::dates::{date_to_ms, day_format, day_start};
use crate::enums::LookUpPeriod;
use crate::json::{
    check_json, is_json, json_bool, json_i64, json_text, json_u64, read_bool, read_i64, read_text,
    read_u64,
};
use crate::parse::{parse_unsigned, spelled};
use crate::pool_config::{is_pool_named, pool_by_name, PoolConfig};
use crate::text::{lowercase, same_text, to_lower, uppercase};
use vstd::prelude::*;
use vstd::string::*;

verus! {

/// The shape of the three ranges of a vault, in ticks, and how often it rebalances.
#[derive(Debug, Clone, Copy, PartialEq, Eq)]
pub struct VaultParams {
    pub wide_range_weight: u64,
    pub wide_threshold: i32,
    pub base_threshold: i32,
    pub limit_threshold: i32,
    pub period: u64,
}

/// When the debt is rebalanced: how often at most, how far the ratio of value to debt
/// may leave the target (in units of 10^-18), and the fee of its swaps in millionths.
/// Also where the leverage market maker takes its price from.
#[derive(Debug)]
pub struct DlvParams {
    pub period: Option<u64>,
    pub deviation_above_wad: Option<u128>,
    pub deviation_below_wad: Option<u128>,
    pub swap_fee_ppm: u128,
    pub alm_swap_price_source: String,
}

/// Where outside prices are kept, how the arbitrage trades on them, and when it runs.
#[derive(Debug)]
pub struct ArbParams {
    pub price_feed_dir: String,
    pub mode: ArbMode,
    pub start_ms: i64,
    pub end_ms: i64,
}

#[derive(Debug, Clone, Copy, PartialEq, Eq, Structural)]
pub enum ArbMode {
    CloseGap,
    Optimal,
}

#[derive(Debug, Clone, Copy, PartialEq, Eq, Structural)]
pub enum ActiveRebalanceMode {
    Active,
    Passive,
    Hybrid,
}

/// The leverage market maker: its fee in millionths, and the largest trade of one
/// step in millionths of the collateral, if there is a limit.
#[derive(Debug, Clone, Copy, PartialEq, Eq)]
pub struct LevAmmConfig {
    pub enabled: bool,
    pub swap_fee_ppm: u128,
    pub max_arb_per_tick_ppm: Option<u128>,
}

/// How the ranges follow the price step by step.
#[derive(Debug, Clone, Copy, PartialEq, Eq)]
pub struct SlowRecenterConfig {
    pub enabled: bool,
    pub max_shift_per_step: i32,
    pub trigger_interval_seconds: u64,
    pub only_shift_oor: bool,
    pub redeploy_limit_at_current_tick: bool,
}

/// The settings that are fractions, scaled to whole numbers.
#[derive(Debug, Clone, Copy)]
pub struct Fractions {
    pub dlv_above_wad: Option<u128>,
    pub dlv_below_wad: Option<u128>,
    pub dlv_swap_fee_ppm: u128,
    pub lev_amm_swap_fee_ppm: u128,
    pub lev_amm_max_arb_ppm: Option<u128>,
}

/// The texts that the settings are made from.
#[derive(Debug)]
pub struct EnvVars {
    pub bf_pool: Option<String>,
    pub bf_pool_fee: Option<String>,
    pub lookup_period: Option<String>,
    pub is_regulate_debt: Option<String>,
    pub alm_only: Option<String>,
    pub arb_strategy: Option<String>,
    pub target_cr_pct: Option<String>,
    pub bf_start_date: Option<String>,
    pub bf_end_date: Option<String>,
    pub bf_charm_json: Option<String>,
    pub bf_dlv_json: Option<String>,
    pub bf_arb_json: Option<String>,
    pub bf_arb_price_dir: Option<String>,
    pub arb_mode: Option<String>,
    pub active_rebalance_ratio_deviation_bps: Option<String>,
    pub active_rebalance_mode: Option<String>,
    pub bf_max_ticks: Option<String>,
    pub no_arb_donation: Option<String>,
    pub use_asymmetric_deleverage: Option<String>,
    pub use_dynamic_width: Option<String>,
    pub volatility_window_minutes: Option<String>,
    pub use_fee_recycling: Option<String>,
    pub use_lev_amm: Option<String>,
    pub bf_lev_amm_json: Option<String>,
    pub bf_slow_recenter_json: Option<String>,
}

#[derive(Debug)]
pub struct Config {
    pub pool_selection: String,
    pub pool_config: PoolConfig,
    pub pool_fee_override: Option<u32>,
    pub lookup_period: u32,
    pub is_regulate_debt: bool,
    pub is_alm_only: bool,
    pub is_arb_strategy: bool,
    pub target_cr_pct: u32,
    pub start_ms: i64,
    pub end_ms: i64,
    pub charm: VaultParams,
    pub dlv: DlvParams,
    pub arb: ArbParams,
    pub active_rebalance_ratio_deviation_bps: u32,
    pub active_rebalance_mode: ActiveRebalanceMode,
    pub max_ticks: Option<u64>,
    pub no_arb_donation: bool,
    pub use_asymmetric_deleverage: bool,
    pub use_dynamic_width: bool,
    pub volatility_window_minutes: u32,
    pub use_fee_recycling: bool,
    pub lev_amm: LevAmmConfig,
    pub slow_recenter: SlowRecenterConfig,
}

/// An optional text by its characters.
pub open spec fn text_view(o: Option<String>) -> Option<Seq<char>> {
    match o {
        Some(s) => Some(s@),
        None => None,
    }
}

/// A text that is JSON.
pub open spec fn json_in(o: Option<Seq<char>>) -> Option<Seq<char>> {
    match o {
        Some(s) => if is_json(s) {
            Some(s)
        } else {
            None
        },
        None => None,
    }
}

/// The whole number in a text; none where there is none.
pub open spec fn number_in(o: Option<Seq<char>>, max: int) -> Option<int> {
    match o {
        Some(s) => spelled(s, 0, max),
        None => None,
    }
}

/// A text that is exactly `true`.
pub open spec fn is_true(o: Option<Seq<char>>) -> bool {
    o == Some("true"@)
}

/// No text, or one that is not `false` in any case.
pub open spec fn is_not_false(o: Option<Seq<char>>) -> bool {
    match o {
        Some(s) => lowercase(s) != "false"@,
        None => true,
    }
}

/// A text that is `true` in any case.
pub open spec fn is_any_true(o: Option<Seq<char>>) -> bool {
    match o {
        Some(s) => lowercase(s) == "true"@,
        None => false,
    }
}

/// The start of the day that a text gives, or another moment.
pub open spec fn day_in(o: Option<Seq<char>>, otherwise: int) -> int {
    match o {
        Some(s) => match day_start(s, day_format()) {
            Some(n) => n,
            None => otherwise,
        },
        None => otherwise,
    }
}

/// 2025-09-09 and 2026-03-06, the days that a simulation covers where none are given.
pub open spec fn first_day() -> int {
    1_757_376_000_000
}

pub open spec fn last_day() -> int {
    1_772_755_200_000
}

/// What is there, or else a default.
pub open spec fn or_else<T>(o: Option<T>, d: T) -> T {
    match o {
        Some(x) => x,
        None => d,
    }
}

/// The values of the settings of the ranges that a JSON object gives.
#[derive(Debug, Clone, Copy)]
pub struct CharmJson {
    pub wide_range_weight: Option<u64>,
    pub wide_threshold: Option<i64>,
    pub base_threshold: Option<i64>,
    pub limit_threshold: Option<i64>,
    pub period: Option<u64>,
}

/// No value at all.
pub open spec fn no_charm() -> CharmJson {
    CharmJson {
        wide_range_weight: None,
        wide_threshold: None,
        base_threshold: None,
        limit_threshold: None,
        period: None,
    }
}

/// The values in a JSON object.
pub open spec fn charm_json(t: Seq<char>) -> CharmJson {
    CharmJson {
        wide_range_weight: json_u64(t, "wideRangeWeight"@),
        wide_threshold: json_i64(t, "wideThreshold"@),
        base_threshold: json_i64(t, "baseThreshold"@),
        limit_threshold: json_i64(t, "limitThreshold"@),
        period: json_u64(t, "period"@),
    }
}

/// The settings of the ranges, each with its default. Ticks keep their lowest 32 bits.
pub open spec fn charm_of(j: CharmJson) -> VaultParams {
    VaultParams {
        wide_range_weight: or_else(j.wide_range_weight, 0),
        wide_threshold: or_else(j.wide_threshold, 18000) as i32,
        base_threshold: or_else(j.base_threshold, 1020) as i32,
        limit_threshold: or_else(j.limit_threshold, 300) as i32,
        period: or_else(j.period, 8_640_000_000),
    }
}

/// The settings of the ranges in an optional text.
pub open spec fn charm_in(o: Option<Seq<char>>) -> VaultParams {
    match json_in(o) {
        Some(t) => charm_of(charm_json(t)),
        None => charm_of(no_charm()),
    }
}

fn or_u64(o: Option<u64>, d: u64) -> (r: u64)
    ensures
        r == or_else(o, d),
{
    match o {
        Some(x) => x,
        None => d,
    }
}

fn or_i64(o: Option<i64>, d: i64) -> (r: i64)
    ensures
        r == or_else(o, d),
{
    match o {
        Some(x) => x,
        None => d,
    }
}

/// The settings of the ranges, each with its default.
pub fn charm_from(j: &CharmJson) -> (r: VaultParams)
    ensures
        r == charm_of(*j),
{
    VaultParams {
        wide_range_weight: or_u64(j.wide_range_weight, 0),
        wide_threshold: or_i64(j.wide_threshold, 18000) as i32,
        base_threshold: or_i64(j.base_threshold, 1020) as i32,
        limit_threshold: or_i64(j.limit_threshold, 300) as i32,
        period: or_u64(j.period, 8_640_000_000),
    }
}

fn json_of(o: &Option<String>) -> (r: Option<&str>)
    ensures
        json_in(text_view(*o)) == (match r {
            Some(s) => Some(s@),
            None => None,
        }),
{
    match o {
        Some(s) => if check_json(s.as_str()) {
            Some(s.as_str())
        } else {
            None
        },
        None => None,
    }
}

/// The settings of the ranges in an optional text.
pub fn parse_charm_env(json: &Option<String>) -> (r: VaultParams)
    ensures
        r == charm_in(text_view(*json)),
{
    match json_of(json) {
        Some(t) => charm_from(
            &CharmJson {
                wide_range_weight: read_u64(t, "wideRangeWeight"),
                wide_threshold: read_i64(t, "wideThreshold"),
                base_threshold: read_i64(t, "baseThreshold"),
                limit_threshold: read_i64(t, "limitThreshold"),
                period: read_u64(t, "period"),
            },
        ),
        None => charm_from(
            &CharmJson {
                wide_range_weight: None,
                wide_threshold: None,
                base_threshold: None,
                limit_threshold: None,
                period: None,
            },
        ),
    }
}

/// A path under `data/` is taken from the directory of the simulator's data.
pub open spec fn data_path(s: Seq<char>) -> Seq<char> {
    if s.len() >= 5 && s.take(5) == "data/"@ {
        "../dlv-sim/"@ + s
    } else {
        s
    }
}

/// A path under `data/` is taken from the directory of the simulator's data.
pub fn resolve_data_path(path: &str) -> (r: String)
    ensures
        r@ == data_path(path@),
{
    let n: usize = path.unicode_len();
    if n >= 5 {
        let head: &str = path.substring_char(0, 5);
        assert(path@.take(5) =~= path@.subrange(0, 5));
        if same_text(head, "data/") {
            let mut out: String = "../dlv-sim/".to_owned();
            out.append(path);
            return out;
        }
    }
    path.to_owned()
}

/// How the arbitrage trades: `optimal` or not.
pub open spec fn arb_mode_of(s: Seq<char>) -> ArbMode {
    if s == "optimal"@ {
        ArbMode::Optimal
    } else {
        ArbMode::CloseGap
    }
}

pub fn arb_mode_from(s: &str) -> (r: ArbMode)
    ensures
        r == arb_mode_of(s@),
{
    if same_text(s, "optimal") {
        ArbMode::Optimal
    } else {
        ArbMode::CloseGap
    }
}

/// How the holdings are rebalanced, by a name in lower case.
pub open spec fn rebalance_mode_of(lower: Seq<char>) -> ActiveRebalanceMode {
    if lower == "passive"@ {
        ActiveRebalanceMode::Passive
    } else if lower == "hybrid"@ {
        ActiveRebalanceMode::Hybrid
    } else {
        ActiveRebalanceMode::Active
    }
}

pub fn rebalance_mode_from(lower: &str) -> (r: ActiveRebalanceMode)
    ensures
        r == rebalance_mode_of(lower@),
{
    if same_text(lower, "passive") {
        ActiveRebalanceMode::Passive
    } else if same_text(lower, "hybrid") {
        ActiveRebalanceMode::Hybrid
    } else {
        ActiveRebalanceMode::Active
    }
}

/// The values of the settings of the arbitrage that a JSON object gives.
#[derive(Debug)]
pub struct ArbJson {
    pub price_feed_dir: Option<String>,
    pub mode: Option<String>,
    pub start_date: Option<String>,
    pub end_date: Option<String>,
}

/// The settings of the arbitrage from given values, each with its default.
pub open spec fn arb_from_values(
    dir: Option<Seq<char>>,
    mode: Option<Seq<char>>,
    start: Option<Seq<char>>,
    end: Option<Seq<char>>,
    default_start: int,
    default_end: int,
    r: ArbParams,
) -> bool {
    &&& r.price_feed_dir@ == data_path(or_else(dir, "data/binance/BTCUSDT"@))
    &&& r.mode == arb_mode_of(or_else(mode, "close_gap"@))
    &&& r.start_ms == day_in(start, default_start)
    &&& r.end_ms == day_in(end, default_end)
}

/// The settings of the arbitrage from a JSON text, or from a directory and a mode.
pub open spec fn arb_in(
    json: Option<Seq<char>>,
    dir: Option<Seq<char>>,
    mode: Option<Seq<char>>,
    start: int,
    end: int,
    r: ArbParams,
) -> bool {
    match json_in(json) {
        Some(t) => arb_from_values(
            json_text(t, "priceFeedDir"@),
            json_text(t, "mode"@),
            json_text(t, "startDate"@),
            json_text(t, "endDate"@),
            start,
            end,
            r,
        ),
        None => {
            &&& r.price_feed_dir@ == or_else(dir, "../dlv-sim/data/binance/BTCUSDT"@)
            &&& r.mode == (match mode {
                Some(m) => arb_mode_of(m),
                None => ArbMode::CloseGap,
            })
            &&& r.start_ms == start
            &&& r.end_ms == end
        },
    }
}

fn day_or(o: &Option<String>, otherwise: i64) -> (r: i64)
    ensures
        r == day_in(text_view(*o), otherwise as int),
{
    match o {
        Some(s) => match date_to_ms(s.as_str()) {
            Some(n) => n,
            None => otherwise,
        },
        None => otherwise,
    }
}

/// The settings of the arbitrage from given values, each with its default.
pub fn arb_from(j: &ArbJson, default_start: i64, default_end: i64) -> (r: ArbParams)
    ensures
        arb_from_values(
            text_view(j.price_feed_dir),
            text_view(j.mode),
            text_view(j.start_date),
            text_view(j.end_date),
            default_start as int,
            default_end as int,
            r,
        ),
{
    let price_feed_dir: String = match &j.price_feed_dir {
        Some(s) => resolve_data_path(s.as_str()),
        None => resolve_data_path("data/binance/BTCUSDT"),
    };
    let mode: ArbMode = match &j.mode {
        Some(s) => arb_mode_from(s.as_str()),
        None => arb_mode_from("close_gap"),
    };
    ArbParams {
        price_feed_dir,
        mode,
        start_ms: day_or(&j.start_date, default_start),
        end_ms: day_or(&j.end_date, default_end),
    }
}

/// The settings of the arbitrage.
pub fn parse_arb_env(env: &EnvVars, default_start: i64, default_end: i64) -> (r: ArbParams)
    ensures
        arb_in(
            text_view(env.bf_arb_json),
            text_view(env.bf_arb_price_dir),
            text_view(env.arb_mode),
            default_start as int,
            default_end as int,
            r,
        ),
{
    match json_of(&env.bf_arb_json) {
        Some(t) => arb_from(
            &ArbJson {
                price_feed_dir: read_text(t, "priceFeedDir"),
                mode: read_text(t, "mode"),
                start_date: read_text(t, "startDate"),
                end_date: read_text(t, "endDate"),
            },
            default_start,
            default_end,
        ),
        None => {
            let price_feed_dir: String = match &env.bf_arb_price_dir {
                Some(s) => s.clone(),
                None => "../dlv-sim/data/binance/BTCUSDT".to_owned(),
            };
            let mode: ArbMode = match &env.arb_mode {
                Some(s) => arb_mode_from(s.as_str()),
                None => ArbMode::CloseGap,
            };
            ArbParams { price_feed_dir, mode, start_ms: default_start, end_ms: default_end }
        },
    }
}

/// Whether the leverage market maker runs: by its own text, or by a JSON object.
pub open spec fn lev_enabled(json: Option<Seq<char>>, flag: Option<Seq<char>>) -> bool {
    match json_in(json) {
        Some(t) => or_else(json_bool(t, "enabled"@), false) || is_true(flag),
        None => is_true(flag),
    }
}

/// The settings of the leverage market maker.
pub fn parse_lev_amm_env(env: &EnvVars, f: &Fractions) -> (r: LevAmmConfig)
    ensures
        r == (LevAmmConfig {
            enabled: lev_enabled(text_view(env.bf_lev_amm_json), text_view(env.use_lev_amm)),
            swap_fee_ppm: f.lev_amm_swap_fee_ppm,
            max_arb_per_tick_ppm: f.lev_amm_max_arb_ppm,
        }),
{
    let flag: bool = flag_true(&env.use_lev_amm);
    let by_json: bool = match json_of(&env.bf_lev_amm_json) {
        Some(t) => match read_bool(t, "enabled") {
            Some(b) => b,
            None => false,
        },
        None => false,
    };
    LevAmmConfig {
        enabled: by_json || flag,
        swap_fee_ppm: f.lev_amm_swap_fee_ppm,
        max_arb_per_tick_ppm: f.lev_amm_max_arb_ppm,
    }
}

/// The values of the settings of slow recentering that a JSON object gives.
#[derive(Debug, Clone, Copy)]
pub struct SlowRecenterJson {
    pub enabled: Option<bool>,
    pub max_shift_per_step: Option<i64>,
    pub trigger_interval_seconds: Option<u64>,
    pub only_shift_oor: Option<bool>,
    pub redeploy_limit_at_current_tick: Option<bool>,
}

/// The settings of slow recentering, each with its default.
pub open spec fn slow_recenter_of(j: SlowRecenterJson) -> SlowRecenterConfig {
    SlowRecenterConfig {
        enabled: or_else(j.enabled, false),
        max_shift_per_step: or_else(j.max_shift_per_step, 2) as i32,
        trigger_interval_seconds: or_else(j.trigger_interval_seconds, 3600),
        only_shift_oor: or_else(j.only_shift_oor, false),
        redeploy_limit_at_current_tick: or_else(j.redeploy_limit_at_current_tick, false),
    }
}

/// The values in an optional text.
pub open spec fn slow_recenter_json(o: Option<Seq<char>>) -> SlowRecenterJson {
    match json_in(o) {
        Some(t) => SlowRecenterJson {
            enabled: json_bool(t, "enabled"@),
            max_shift_per_step: json_i64(t, "maxShiftPerStep"@),
            trigger_interval_seconds: json_u64(t, "triggerIntervalSeconds"@),
            only_shift_oor: json_bool(t, "onlyShiftOOR"@),
            redeploy_limit_at_current_tick: json_bool(t, "redeployLimitAtCurrentTick"@),
        },
        None => SlowRecenterJson {
            enabled: None,
            max_shift_per_step: None,
            trigger_interval_seconds: None,
            only_shift_oor: None,
            redeploy_limit_at_current_tick: None,
        },
    }
}

fn or_false(o: Option<bool>) -> (r: bool)
    ensures
        r == or_else(o, false),
{
    match o {
        Some(x) => x,
        None => false,
    }
}

/// The settings of slow recentering, each with its default.
pub fn slow_recenter_from(j: &SlowRecenterJson) -> (r: SlowRecenterConfig)
    ensures
        r == slow_recenter_of(*j),
{
    SlowRecenterConfig {
        enabled: or_false(j.enabled),
        max_shift_per_step: or_i64(j.max_shift_per_step, 2) as i32,
        trigger_interval_seconds: or_u64(j.trigger_interval_seconds, 3600),
        only_shift_oor: or_false(j.only_shift_oor),
        redeploy_limit_at_current_tick: or_false(j.redeploy_limit_at_current_tick),
    }
}

/// The settings of slow recentering in an optional text.
pub fn parse_slow_recenter_env(json: &Option<String>) -> (r: SlowRecenterConfig)
    ensures
        r == slow_recenter_of(slow_recenter_json(text_view(*json))),
{
    let j: SlowRecenterJson = match json_of(json) {
        Some(t) => SlowRecenterJson {
            enabled: read_bool(t, "enabled"),
            max_shift_per_step: read_i64(t, "maxShiftPerStep"),
            trigger_interval_seconds: read_u64(t, "triggerIntervalSeconds"),
            only_shift_oor: read_bool(t, "onlyShiftOOR"),
            redeploy_limit_at_current_tick: read_bool(t, "redeployLimitAtCurrentTick"),
        },
        None => SlowRecenterJson {
            enabled: None,
            max_shift_per_step: None,
            trigger_interval_seconds: None,
            only_shift_oor: None,
            redeploy_limit_at_current_tick: None,
        },
    };
    slow_recenter_from(&j)
}

/// The settings of the debt in an optional text.
pub open spec fn dlv_in(o: Option<Seq<char>>, f: Fractions, r: DlvParams) -> bool {
    &&& r.period == (match json_in(o) {
        Some(t) => json_u64(t, "period"@),
        None => None,
    })
    &&& r.alm_swap_price_source@ == (match json_in(o) {
        Some(t) => or_else(json_text(t, "almSwapPriceSource"@), "5bp"@),
        None => "5bp"@,
    })
    &&& r.deviation_above_wad == f.dlv_above_wad
    &&& r.deviation_below_wad == f.dlv_below_wad
    &&& r.swap_fee_ppm == f.dlv_swap_fee_ppm
}

/// The settings of the debt in an optional text.
pub fn parse_dlv_env(json: &Option<String>, f: &Fractions) -> (r: DlvParams)
    ensures
        dlv_in(text_view(*json), *f, r),
{
    let (period, source) = match json_of(json) {
        Some(t) => (
            read_u64(t, "period"),
            match read_text(t, "almSwapPriceSource") {
                Some(s) => s,
                None => "5bp".to_owned(),
            },
        ),
        None => (None, "5bp".to_owned()),
    };
    DlvParams {
        period,
        deviation_above_wad: f.dlv_above_wad,
        deviation_below_wad: f.dlv_below_wad,
        swap_fee_ppm: f.dlv_swap_fee_ppm,
        alm_swap_price_source: source,
    }
}

fn flag_true(o: &Option<String>) -> (r: bool)
    ensures
        r == is_true(text_view(*o)),
{
    match o {
        Some(s) => same_text(s.as_str(), "true"),
        None => false,
    }
}

fn flag_not_false(o: &Option<String>) -> (r: bool)
    ensures
        r == is_not_false(text_view(*o)),
{
    match o {
        Some(s) => {
            let lower: String = to_lower(s.as_str());
            !same_text(lower.as_str(), "false")
        },
        None => true,
    }
}

fn flag_any_true(o: &Option<String>) -> (r: bool)
    ensures
        r == is_any_true(text_view(*o)),
{
    match o {
        Some(s) => {
            let lower: String = to_lower(s.as_str());
            same_text(lower.as_str(), "true")
        },
        None => false,
    }
}

fn u32_in(o: &Option<String>) -> (r: Option<u32>)
    ensures
        number_in(text_view(*o), u32::MAX as int) == (match r {
            Some(n) => Some(n as int),
            None => None,
        }),
{
    match o {
        Some(s) => match parse_unsigned(s.as_str(), 0xffff_ffff) {
            Some(n) => Some(n as u32),
            None => None,
        },
        None => None,
    }
}

fn u64_in(o: &Option<String>) -> (r: Option<u64>)
    ensures
        number_in(text_view(*o), u64::MAX as int) == (match r {
            Some(n) => Some(n as int),
            None => None,
        }),
{
    match o {
        Some(s) => parse_unsigned(s.as_str(), u64::MAX),
        None => None,
    }
}

fn u32_or(o: &Option<String>, d: u32) -> (r: u32)
    ensures
        r == or_else(number_in(text_view(*o), u32::MAX as int), d as int),
{
    match u32_in(o) {
        Some(n) => n,
        None => d,
    }
}

pub open spec fn opt_u32(o: Option<u32>) -> Option<int> {
    match o {
        Some(n) => Some(n as int),
        None => None,
    }
}

pub open spec fn opt_u64(o: Option<u64>) -> Option<int> {
    match o {
        Some(n) => Some(n as int),
        None => None,
    }
}

/// The configuration that texts and fractions give.
pub open spec fn configured(e: EnvVars, f: Fractions, c: Config) -> bool {
    let start = day_in(text_view(e.bf_start_date), first_day());
    let end = day_in(text_view(e.bf_end_date), last_day());
    let selection = or_else(text_view(e.bf_pool), "CBBTC_USDC_BASE"@);
    let max = u32::MAX as int;
    &&& c.pool_selection@ == selection
    &&& is_pool_named(uppercase(selection), c.pool_config)
    &&& opt_u32(c.pool_fee_override) == number_in(text_view(e.bf_pool_fee), max)
    &&& c.lookup_period == or_else(number_in(text_view(e.lookup_period), max), 5)
    &&& c.is_regulate_debt == is_not_false(text_view(e.is_regulate_debt))
    &&& c.is_alm_only == is_any_true(text_view(e.alm_only))
    &&& c.is_arb_strategy == is_true(text_view(e.arb_strategy))
    &&& c.target_cr_pct == or_else(number_in(text_view(e.target_cr_pct), max), 200)
    &&& c.start_ms == start
    &&& c.end_ms == end
    &&& c.charm == charm_in(text_view(e.bf_charm_json))
    &&& dlv_in(text_view(e.bf_dlv_json), f, c.dlv)
    &&& arb_in(
        text_view(e.bf_arb_json),
        text_view(e.bf_arb_price_dir),
        text_view(e.arb_mode),
        start,
        end,
        c.arb,
    )
    &&& c.active_rebalance_ratio_deviation_bps == or_else(
        number_in(text_view(e.active_rebalance_ratio_deviation_bps), max),
        100,
    )
    &&& c.active_rebalance_mode == (match text_view(e.active_rebalance_mode) {
        Some(s) => rebalance_mode_of(lowercase(s)),
        None => ActiveRebalanceMode::Active,
    })
    &&& opt_u64(c.max_ticks) == number_in(text_view(e.bf_max_ticks), u64::MAX as int)
    &&& c.no_arb_donation == is_true(text_view(e.no_arb_donation))
    &&& c.use_asymmetric_deleverage == is_not_false(text_view(e.use_asymmetric_deleverage))
    &&& c.use_dynamic_width == is_true(text_view(e.use_dynamic_width))
    &&& c.volatility_window_minutes == or_else(
        number_in(text_view(e.volatility_window_minutes), max),
        1440,
    )
    &&& c.use_fee_recycling == is_not_false(text_view(e.use_fee_recycling))
    &&& c.lev_amm == (LevAmmConfig {
        enabled: lev_enabled(text_view(e.bf_lev_amm_json), text_view(e.use_lev_amm)),
        swap_fee_ppm: f.lev_amm_swap_fee_ppm,
        max_arb_per_tick_ppm: f.lev_amm_max_arb_ppm,
    })
    &&& c.slow_recenter == slow_recenter_of(slow_recenter_json(text_view(e.bf_slow_recenter_json)))
}

/// A text that should be JSON and is not counts as not given.
pub proof fn broken_json_counts_as_unset(
    s: Seq<char>,
    f: Fractions,
    dlv: DlvParams,
    flag: Option<Seq<char>>,
    dir: Option<Seq<char>>,
    mode: Option<Seq<char>>,
    start: int,
    end: int,
    arb: ArbParams,
)
    requires
        !is_json(s),
    ensures
        charm_in(Some(s)) == charm_in(None),
        dlv_in(Some(s), f, dlv) == dlv_in(None, f, dlv),
        arb_in(Some(s), dir, mode, start, end, arb) == arb_in(None, dir, mode, start, end, arb),
        lev_enabled(Some(s), flag) == lev_enabled(None, flag),
        slow_recenter_of(slow_recenter_json(Some(s))) == slow_recenter_of(slow_recenter_json(None)),
{
}

impl Config {
    /// The configuration that texts and fractions give. What is not given, or does not
    /// read as what it should be, takes its default.
    pub fn from_env(env: &EnvVars, fractions: &Fractions) -> (r: Config)
        ensures
            configured(*env, *fractions, r),
    {
        let pool_selection: String = match &env.bf_pool {
            Some(s) => s.clone(),
            None => "CBBTC_USDC_BASE".to_owned(),
        };
        let pool_config: PoolConfig = pool_by_name(pool_selection.as_str());
        let start_ms: i64 = day_or(&env.bf_start_date, 1_757_376_000_000);
        let end_ms: i64 = day_or(&env.bf_end_date, 1_772_755_200_000);
        let active_rebalance_mode: ActiveRebalanceMode = match &env.active_rebalance_mode {
            Some(s) => {
                let lower: String = to_lower(s.as_str());
                rebalance_mode_from(lower.as_str())
            },
            None => ActiveRebalanceMode::Active,
        };
        Config {
            pool_selection,
            pool_config,
            pool_fee_override: u32_in(&env.bf_pool_fee),
            lookup_period: u32_or(&env.lookup_period, LookUpPeriod::FiveSeconds.as_secs()),
            is_regulate_debt: flag_not_false(&env.is_regulate_debt),
            is_alm_only: flag_any_true(&env.alm_only),
            is_arb_strategy: flag_true(&env.arb_strategy),
            target_cr_pct: u32_or(&env.target_cr_pct, 200),
            start_ms,
            end_ms,
            charm: parse_charm_env(&env.bf_charm_json),
            dlv: parse_dlv_env(&env.bf_dlv_json, fractions),
            arb: parse_arb_env(env, start_ms, end_ms),
            active_rebalance_ratio_deviation_bps: u32_or(
                &env.active_rebalance_ratio_deviation_bps,
                100,
            ),
            active_rebalance_mode,
            max_ticks: u64_in(&env.bf_max_ticks),
            no_arb_donation: flag_true(&env.no_arb_donation),
            use_asymmetric_deleverage: flag_not_false(&env.use_asymmetric_deleverage),
            use_dynamic_width: flag_true(&env.use_dynamic_width),
            volatility_window_minutes: u32_or(&env.volatility_window_minutes, 1440),
            use_fee_recycling: flag_not_false(&env.use_fee_recycling),
            lev_amm: parse_lev_amm_env(env, fractions),
            slow_recenter: parse_slow_recenter_env(&env.bf_slow_recenter_json),
        }
    }

    /// The target ratio of value to debt, 10^18 where they are equal.
    pub fn target_cr_wad(&self) -> (r: u128)
        ensures
            r == self.target_cr_pct * 10_000_000_000_000_000,
    {
        self.target_cr_pct as u128 * 1_000_000_000_000_000_000 / 100
    }
}

} // verus!
