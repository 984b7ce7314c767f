//! Numbers and dates in texts, recorded events, outside prices and the settings.
use dlv_sim::config::{
    resolve_data_path, ActiveRebalanceMode, ArbMode, Config, EnvVars, Fractions,
};
use dlv_sim::dates::{date_to_ms, fmt_utc_date, fmt_utc_day, parse_date_to_ms};
use dlv_sim::enums::{EventType, LookUpPeriod};
use dlv_sim::event_reader::{
    event_from_row, load_all_events, EventReader, EventRow, ParquetPoolConfig,
};
use dlv_sim::order::stable_order;
use dlv_sim::parse::{parse_i256, parse_i64, parse_u256, parse_unsigned, precedes};
use dlv_sim::pool_config::pool_by_name;
use dlv_sim::price_feed::{
    price_to_sqrt_price_x96, read_candles, sample, PriceEntry, PriceFeed,
};
use dlv_sim::text::{chars, text_of};
use dlv_sim::types::{I256, MAX_UINT256, U256};

#[test]
fn numbers_are_read_from_texts() {
    assert_eq!(parse_u256("  42 "), U256::from_u64(42));
    assert_eq!(parse_u256("1_000x7"), U256::from_u64(10007));
    assert!(parse_u256("").is_zero());
    assert!(parse_u256("abc").is_zero());
    assert_eq!(
        parse_u256("115792089237316195423570985008687907853269984665640564039457584007913129639937"),
        U256::ONE()
    );
    assert_eq!(parse_i256("-17").to_dec_string(), "-17");
    assert_eq!(parse_i256(" 17").to_dec_string(), "17");
    assert_eq!(parse_i256("--17").to_dec_string(), "-17");
    assert!(parse_i256("0").is_zero());
    assert_eq!(parse_unsigned("12", 4294967295), Some(12));
    assert_eq!(parse_unsigned("+12", 4294967295), Some(12));
    assert_eq!(parse_unsigned("4294967296", 4294967295), None);
    assert_eq!(parse_unsigned("-1", 4294967295), None);
    assert_eq!(parse_unsigned("", 4294967295), None);
    assert_eq!(parse_unsigned(" 1", 4294967295), None);
    assert_eq!(parse_i64(&chars("-9223372036854775808")), Some(i64::MIN));
    assert_eq!(parse_i64(&chars("9223372036854775808")), None);
    assert_eq!(parse_i64(&chars("-")), None);
}

#[test]
fn large_numbers_are_written_and_read_back() {
    let x = U256::new(5, 7);
    assert_eq!(x.to_dec_string(), "2381976568446569244243622252022377480197");
    assert_eq!(U256::from_dec_str(&x.to_dec_string()), x);
    assert_eq!(U256::try_from_dec_str(" 12 "), Some(U256::from_u64(12)));
    assert_eq!(U256::try_from_dec_str("1x"), None);
    assert_eq!(U256::from_hex_str("0xfF"), U256::from_u64(255));
    assert_eq!(U256::from_le_bytes(&x.to_le_bytes()), x);
    let y = I256(x).negate();
    assert_eq!(y.to_dec_string(), "-2381976568446569244243622252022377480197");
    assert_eq!(I256::from_le_bytes(&y.to_le_bytes()), y);
    assert_eq!(y.negate(), I256(x));
    assert_eq!(I256::from_i32(-5).to_i128(), -5);
    assert_eq!(I256::from_i32(-5).as_i32(), -5);
    assert_eq!((U256::ONE() + MAX_UINT256()), U256::ZERO());
}

#[test]
fn texts_are_put_together() {
    assert_eq!(text_of(&chars("a b\u{e9}")), "a b\u{e9}");
    assert!(precedes("2024-01-01", "2024-01-02"));
    assert!(precedes("2024-01", "2024-01-01"));
    assert!(!precedes("2024-01-01", "2024-01-01"));
    assert!(!precedes("b", "a"));
}

#[test]
fn dates_are_read_and_written() {
    assert_eq!(parse_date_to_ms("2025-09-09 00:00:00"), 1757376000000);
    assert_eq!(parse_date_to_ms("2024-02-29 23:59:59"), 1709251199000);
    assert_eq!(parse_date_to_ms("2023-02-29 00:00:00"), 0);
    assert_eq!(parse_date_to_ms("2025-09-09"), 0);
    assert_eq!(date_to_ms("2024-04-21"), Some(1713657600000));
    assert_eq!(date_to_ms("21.4.2024"), None);
    assert_eq!(fmt_utc_date(1757376000000), "2025-09-09 00:00:00");
    assert_eq!(fmt_utc_date(-1000), "1969-12-31 23:59:59");
    assert_eq!(fmt_utc_date(i64::MAX), "1970-01-01 00:00:00");
    assert_eq!(fmt_utc_day(1713657600000), "2024-04-21");
    assert_eq!(fmt_utc_day(i64::MIN), "1970-01-01");
}

#[test]
fn kinds_and_periods_have_numbers() {
    assert_eq!(EventType::from_i32(1), EventType::Mint);
    assert_eq!(EventType::from_i32(2), EventType::Burn);
    assert_eq!(EventType::from_i32(3), EventType::Swap);
    assert_eq!(EventType::try_from_i32(0), None);
    assert_eq!(EventType::try_from_i32(4), None);
    assert_eq!(LookUpPeriod::from_secs(3600), LookUpPeriod::Hourly);
    assert_eq!(LookUpPeriod::from_secs(7), LookUpPeriod::FiveSeconds);
    assert_eq!(LookUpPeriod::FourHourly.as_secs(), 14400);
}

#[test]
fn items_are_ordered_stably() {
    let order = stable_order(&vec![5, -1, 5, 0, -1]);
    assert_eq!(order, vec![1, 4, 3, 0, 2]);
    assert!(stable_order(&Vec::new()).is_empty());
}

fn row(event_type: i32, id: i32, block_number: i32, log_index: i32, date: &str) -> EventRow {
    EventRow {
        event_type,
        id,
        msg_sender: "0xS".to_string(),
        recipient: "0xR".to_string(),
        amount0: "-15".to_string(),
        amount1: "20".to_string(),
        tick_lower: Some(-60),
        tick_upper: Some(60),
        liquidity: "1000".to_string(),
        amount_specified: Some("20".to_string()),
        sqrt_price_x96: Some("79228162514264337593543950336".to_string()),
        tick: Some(3),
        block_number,
        log_index,
        date: date.to_string(),
    }
}

#[test]
fn events_come_in_the_order_of_the_chain() {
    let rows = vec![
        row(3, 1, 20, 1, "2025-11-02 01:00:00"),
        row(3, 2, 10, 7, "2025-11-02 01:30:00"),
        row(3, 3, 20, -4, "2025-11-02 01:10:00"),
        row(3, 4, -3, 9, "2025-11-02 01:20:00"),
        row(3, 5, 10, 7, "2025-11-02 00:10:00"),
    ];
    let all = load_all_events(&rows, None, None).unwrap();
    let ids: Vec<i32> = all.iter().map(|e| e.id).collect();
    assert_eq!(ids, vec![4, 2, 5, 3, 1]);
    let some =
        load_all_events(&rows, Some("2025-11-02 01:00:00"), Some("2025-11-02 01:20:00")).unwrap();
    let ids: Vec<i32> = some.iter().map(|e| e.id).collect();
    assert_eq!(ids, vec![3, 1]);
}

#[test]
fn events_are_read_from_rows() {
    let e = event_from_row(&row(1, 9, 20, 1, "2025-09-09 00:00:01")).unwrap();
    assert_eq!(e.event_type, EventType::Mint);
    assert_eq!(e.amount0.to_dec_string(), "-15");
    assert_eq!(e.amount1, I256(U256::from_u64(20)));
    assert_eq!(e.liquidity, I256(U256::from_u64(1000)));
    assert_eq!(e.amount_specified, Some(I256(U256::from_u64(20))));
    assert_eq!(e.sqrt_price_x96, Some(U256::ONE() << 96));
    assert_eq!((e.tick_lower, e.tick_upper, e.tick), (Some(-60), Some(60), Some(3)));
    assert_eq!((e.msg_sender.as_str(), e.recipient.as_str()), ("0xS", "0xR"));
    assert_eq!((e.date_str.as_str(), e.date_ms), ("2025-09-09 00:00:01", 1757376001000));

    let mut bare = row(2, 9, 20, 1, "soon");
    bare.amount_specified = None;
    bare.sqrt_price_x96 = None;
    let e = event_from_row(&bare).unwrap();
    assert_eq!((e.amount_specified, e.sqrt_price_x96, e.date_ms), (None, None, 0));

    assert!(event_from_row(&row(4, 9, 20, 1, "2025-09-09 00:00:01")).is_none());
    let rows = vec![row(3, 1, 1, 1, "2025"), row(7, 2, 2, 2, "2026")];
    assert!(load_all_events(&rows, None, None).is_none());
    assert_eq!(load_all_events(&rows, None, Some("2026")).unwrap().len(), 1);
}

#[test]
fn records_lie_beside_the_database() {
    let mut reader = EventReader::new("data/pool.db");
    assert_eq!(reader.parquet_path, "data/pool.parquet");
    assert_eq!(reader.config_path, "data/pool.pool-config.json");
    assert_eq!(EventReader::new("a.db.db").parquet_path, "a.parquet");
    assert_eq!(EventReader::new("plain").config_path, "plain.pool-config.json");
    reader.pool_config = Some(ParquetPoolConfig {
        id: "0xP".to_string(),
        token0: "0x0".to_string(),
        token1: "0x1".to_string(),
        fee: 500,
        tick_spacing: 10,
        initial_sqrt_price_x96: "12345678901234567890123".to_string(),
    });
    assert_eq!(reader.get_pool_config(), ("0xP".to_string(), 500, 10));
    assert_eq!(
        reader.get_initial_sqrt_price_x96().to_dec_string(),
        "12345678901234567890123"
    );
}

#[test]
fn candles_are_read_from_lines() {
    let content = "1713657600000,1,2,3,64000.5,9\r\n\
        header,1,2,3,4\n\
        \n\
        1713657601000000,1,2,3,64001\n\
        1713657602000,1,2,3\n\
        1713657603000,1,2,3,64003,5,6,7\n\
        1713657699000,1,2,3,64099";
    let candles = read_candles(content, 1713657600000, 1713657603000);
    let read: Vec<(i64, &str)> =
        candles.iter().map(|c| (c.timestamp_ms, c.close.as_str())).collect();
    assert_eq!(
        read,
        vec![(1713657600000, "64000.5"), (1713657601000, "64001"), (1713657603000, "64003")]
    );
}

#[test]
fn prices_are_sampled_and_looked_up() {
    let mut entries: Vec<PriceEntry> = Vec::new();
    for (at, bits) in [(1000, 1), (1500, 2), (2000, 3), (500, 4), (4000, 5)] {
        sample(&mut entries, at, bits, 1000);
    }
    let kept: Vec<i64> = entries.iter().map(|e| e.timestamp_ms).collect();
    assert_eq!(kept, vec![1000, 2000, 4000]);
    sample(&mut entries, 3000, 6, 0);

    assert!(PriceFeed::from_entries(&Vec::new()).is_none());
    let mut feed = PriceFeed::from_entries(&entries).unwrap();
    assert_eq!((feed.start_ms(), feed.end_ms(), feed.len()), (1000, 4000, 4));
    let moments = [0, 1000, 1999, 2000, 3500, 4000, 9000, 2500, 999];
    let prices = [1, 1, 1, 3, 6, 5, 5, 3, 1];
    for (moment, price) in moments.iter().zip(prices.iter()) {
        assert_eq!(feed.lookup(*moment).price_bits, *price);
        assert_eq!(feed.lookup_monotonic(*moment).price_bits, *price);
    }
    feed.reset_cursor();
    assert_eq!(feed.lookup_monotonic(3000).price_bits, 6);
}

#[test]
fn outside_prices_become_square_roots() {
    assert!(price_to_sqrt_price_x96(0).is_zero());
    assert_eq!(price_to_sqrt_price_x96(1_000_000_000_000_000_000), U256::ONE() << 96);
    assert_eq!(
        price_to_sqrt_price_x96(600_000_000_000_000_000_000).to_dec_string(),
        "1940685714182491852533977682922"
    );
}

#[test]
fn pools_are_found_by_name() {
    let first = pool_by_name("wbtc_usdc");
    assert_eq!(first.token0.symbol, "WBTC");
    assert!(first.is_volatile_token0());
    assert_eq!((first.volatile_decimals(), first.stable_decimals()), (8, 6));
    assert_eq!((first.volatile_symbol(), first.stable_symbol()), ("WBTC", "USDC"));
    let second = pool_by_name("Cbbtc_Usdc_Base");
    assert_eq!(second.token0.symbol, "USDC");
    assert!(!second.is_volatile_token0());
    assert_eq!((second.volatile_symbol(), second.stable_symbol()), ("cbBTC", "USDC"));
    assert_eq!(pool_by_name("unknown").display_name, second.display_name);
    let third = pool_by_name("WBTC_USDC_KATANA_5BP");
    assert_eq!(third.fee_amount, 500);
    assert_eq!((third.token0.symbol.as_str(), third.token1.symbol.as_str()), ("WBTC", "vbUSDC"));
    assert!(third.is_volatile_token0());
    assert!(third.pool_address.is_empty() && third.db_path.is_empty());
    assert_eq!(pool_by_name("wbtc_usdc_katana_5bp").fee_amount, 500);
}

fn no_variables() -> EnvVars {
    EnvVars {
        bf_pool: None,
        bf_pool_fee: None,
        lookup_period: None,
        is_regulate_debt: None,
        alm_only: None,
        arb_strategy: None,
        target_cr_pct: None,
        bf_start_date: None,
        bf_end_date: None,
        bf_charm_json: None,
        bf_dlv_json: None,
        bf_arb_json: None,
        bf_arb_price_dir: None,
        arb_mode: None,
        active_rebalance_ratio_deviation_bps: None,
        active_rebalance_mode: None,
        bf_max_ticks: None,
        no_arb_donation: None,
        use_asymmetric_deleverage: None,
        use_dynamic_width: None,
        volatility_window_minutes: None,
        use_fee_recycling: None,
        use_lev_amm: None,
        bf_lev_amm_json: None,
        bf_slow_recenter_json: None,
    }
}

fn fractions() -> Fractions {
    Fractions {
        dlv_above_wad: Some(1),
        dlv_below_wad: None,
        dlv_swap_fee_ppm: 3,
        lev_amm_swap_fee_ppm: 4,
        lev_amm_max_arb_ppm: Some(5),
    }
}

fn text(s: &str) -> Option<String> {
    Some(s.to_string())
}

#[test]
fn settings_have_defaults() {
    let c = Config::from_env(&no_variables(), &fractions());
    assert_eq!(c.pool_selection, "CBBTC_USDC_BASE");
    assert_eq!(c.pool_fee_override, None);
    assert_eq!(c.lookup_period, 5);
    assert!(c.is_regulate_debt && !c.is_alm_only && !c.is_arb_strategy);
    assert_eq!((c.target_cr_pct, c.target_cr_wad()), (200, 2_000_000_000_000_000_000));
    assert_eq!((c.start_ms, c.end_ms), (1757376000000, 1772755200000));
    assert_eq!(c.charm.wide_range_weight, 0);
    assert_eq!(
        (c.charm.wide_threshold, c.charm.base_threshold, c.charm.limit_threshold),
        (18000, 1020, 300)
    );
    assert_eq!(c.charm.period, 8_640_000_000);
    assert_eq!(c.dlv.period, None);
    assert_eq!((c.dlv.deviation_above_wad, c.dlv.deviation_below_wad), (Some(1), None));
    assert_eq!(c.dlv.swap_fee_ppm, 3);
    assert_eq!(c.dlv.alm_swap_price_source, "5bp");
    assert_eq!(c.arb.price_feed_dir, "../dlv-sim/data/binance/BTCUSDT");
    assert_eq!(c.arb.mode, ArbMode::CloseGap);
    assert_eq!((c.arb.start_ms, c.arb.end_ms), (c.start_ms, c.end_ms));
    assert_eq!(c.active_rebalance_ratio_deviation_bps, 100);
    assert_eq!(c.active_rebalance_mode, ActiveRebalanceMode::Active);
    assert_eq!(c.max_ticks, None);
    assert!(!c.no_arb_donation && c.use_asymmetric_deleverage && !c.use_dynamic_width);
    assert_eq!(c.volatility_window_minutes, 1440);
    assert!(c.use_fee_recycling);
    assert!(!c.lev_amm.enabled);
    assert_eq!((c.lev_amm.swap_fee_ppm, c.lev_amm.max_arb_per_tick_ppm), (4, Some(5)));
    assert!(!c.slow_recenter.enabled);
    assert_eq!(c.slow_recenter.max_shift_per_step, 2);
    assert_eq!(c.slow_recenter.trigger_interval_seconds, 3600);
}

#[test]
fn settings_follow_the_variables() {
    let mut env = no_variables();
    env.bf_pool = text("wbtc_usdc");
    env.bf_pool_fee = text("10000");
    env.lookup_period = text("12");
    env.is_regulate_debt = text("FALSE");
    env.alm_only = text("True");
    env.arb_strategy = text("true");
    env.target_cr_pct = text("150");
    env.bf_start_date = text("2024-04-21");
    env.bf_end_date = text("2026-04-21");
    env.bf_charm_json =
        text("{\"wideRangeWeight\":20,\"wideThreshold\":-5,\"limitThreshold\":4294967297,\"period\":60}");
    env.bf_dlv_json = text("{\"period\":600,\"almSwapPriceSource\":\"binance\"}");
    env.bf_arb_json = text(
        "{\"priceFeedDir\":\"data/x\",\"mode\":\"optimal\",\"startDate\":\"2024-05-01\",\"endDate\":\"later\"}",
    );
    env.active_rebalance_ratio_deviation_bps = text("250");
    env.active_rebalance_mode = text("HYBRID");
    env.bf_max_ticks = text("1000");
    env.no_arb_donation = text("true");
    env.use_asymmetric_deleverage = text("False");
    env.use_dynamic_width = text("true");
    env.volatility_window_minutes = text("60");
    env.use_fee_recycling = text("false");
    env.bf_lev_amm_json = text("{\"enabled\":true}");
    env.bf_slow_recenter_json = text(
        "{\"enabled\":true,\"maxShiftPerStep\":7,\"triggerIntervalSeconds\":60,\"onlyShiftOOR\":true,\"redeployLimitAtCurrentTick\":true}",
    );
    let c = Config::from_env(&env, &fractions());
    assert_eq!((c.pool_selection.as_str(), c.pool_config.token0.symbol.as_str()), ("wbtc_usdc", "WBTC"));
    assert_eq!(c.pool_fee_override, Some(10000));
    assert_eq!(c.lookup_period, 12);
    assert!(!c.is_regulate_debt && c.is_alm_only && c.is_arb_strategy);
    assert_eq!(c.target_cr_wad(), 1_500_000_000_000_000_000);
    assert_eq!((c.start_ms, c.end_ms), (1713657600000, 1776729600000));
    assert_eq!(c.charm.wide_range_weight, 20);
    assert_eq!(
        (c.charm.wide_threshold, c.charm.base_threshold, c.charm.limit_threshold),
        (-5, 1020, 1)
    );
    assert_eq!(c.charm.period, 60);
    assert_eq!((c.dlv.period, c.dlv.alm_swap_price_source.as_str()), (Some(600), "binance"));
    assert_eq!((c.arb.price_feed_dir.as_str(), c.arb.mode), ("../dlv-sim/data/x", ArbMode::Optimal));
    assert_eq!((c.arb.start_ms, c.arb.end_ms), (1714521600000, c.end_ms));
    assert_eq!(c.active_rebalance_ratio_deviation_bps, 250);
    assert_eq!(c.active_rebalance_mode, ActiveRebalanceMode::Hybrid);
    assert_eq!(c.max_ticks, Some(1000));
    assert!(c.no_arb_donation && !c.use_asymmetric_deleverage && c.use_dynamic_width);
    assert_eq!(c.volatility_window_minutes, 60);
    assert!(!c.use_fee_recycling && c.lev_amm.enabled && c.slow_recenter.enabled);
    assert_eq!(c.slow_recenter.max_shift_per_step, 7);
    assert_eq!(c.slow_recenter.trigger_interval_seconds, 60);
    assert!(c.slow_recenter.only_shift_oor && c.slow_recenter.redeploy_limit_at_current_tick);
}

/// A text that is no JSON, a value of the wrong kind and a number that does not fit count
/// as not set.
#[test]
fn settings_fall_back_to_defaults() {
    let mut env = no_variables();
    env.bf_pool_fee = text("cheap");
    env.lookup_period = text("99999999999");
    env.target_cr_pct = text("-1");
    env.bf_start_date = text("21.4.2024");
    env.arb_strategy = text("TRUE");
    env.bf_charm_json = text("{\"wideThreshold\":7");
    env.bf_dlv_json = text("{\"period\":\"600\",\"almSwapPriceSource\":3}");
    env.bf_arb_json = text("nothing");
    env.bf_arb_price_dir = text("data/y");
    env.arb_mode = text("optimal");
    env.use_lev_amm = text("true");
    env.bf_lev_amm_json = text("{\"enabled\":\"no\"}");
    env.bf_slow_recenter_json = text("{\"enabled\":fal\nse}");
    let c = Config::from_env(&env, &fractions());
    assert_eq!((c.pool_fee_override, c.lookup_period, c.target_cr_pct), (None, 5, 200));
    assert_eq!(c.start_ms, 1757376000000);
    assert!(!c.is_arb_strategy);
    assert_eq!(c.charm.wide_threshold, 18000);
    assert_eq!((c.dlv.period, c.dlv.alm_swap_price_source.as_str()), (None, "5bp"));
    assert_eq!((c.arb.price_feed_dir.as_str(), c.arb.mode), ("data/y", ArbMode::Optimal));
    assert!(c.lev_amm.enabled && !c.slow_recenter.enabled);
    assert_eq!(resolve_data_path("data/y"), "../dlv-sim/data/y");
    assert_eq!(resolve_data_path("/data/y"), "/data/y");
}
