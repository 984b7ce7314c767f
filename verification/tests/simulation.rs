//! Recorded events, the parts of a period and whole periods.
use dlv_sim::config::{ActiveRebalanceMode, Config, EnvVars, Fractions, VaultParams};
use dlv_sim::core_pool::CorePool;
use dlv_sim::enums::EventType;
use dlv_sim::event_reader::PoolEvent;
use dlv_sim::pool_config::{cbbtc_usdc_base, wbtc_usdc};
use dlv_sim::position_manager::PositionManager;
use dlv_sim::records::{log_row, risk_entries, DebtRatio};
use dlv_sim::strategy::{
    clipped_end, dispatch_regulate_debt, first_period, initial_deposit, move_to_price, next_period,
    open_vault, period_step, pool_terms, replay_all, replay_event, replay_until, simulated_window,
    take_snapshot, ArbOutcome, LevOutcome, Simulation, Snapshot,
};
use dlv_sim::strategy_model::EntrySource;
use dlv_sim::tick_manager::TickManager;
use dlv_sim::types::{I256, U256};
use dlv_sim::vault::Vault;
use dlv_sim::vault_recenter::Deviation;

fn n(s: &str) -> U256 {
    U256::from_dec_str(s)
}

fn two() -> U256 {
    n("2000000000000000000")
}

fn empty_pool(fee: u32, spacing: i32, price: &str) -> CorePool {
    let mut pool = CorePool::new(
        "token0".to_string(),
        "token1".to_string(),
        fee,
        spacing,
        U256::ZERO(),
        U256::ZERO(),
        U256::ZERO(),
        U256::ZERO(),
        0,
        U256::ZERO(),
        U256::ZERO(),
        TickManager::new(),
        PositionManager::new(),
    );
    pool.initialize(n(price));
    pool
}

fn params() -> VaultParams {
    VaultParams {
        wide_range_weight: 10,
        wide_threshold: 6000,
        base_threshold: 1200,
        limit_threshold: 600,
        period: 86400,
    }
}

fn bitcoin_first() -> (CorePool, Vault) {
    let mut pool = empty_pool(3000, 60, "1940685714182491852533977682922");
    pool.mint("0xLP", 60000, 68400, I256(n("1000000000000")));
    (pool, Vault::new(params(), wbtc_usdc(), 60))
}

fn bitcoin_second() -> (CorePool, Vault) {
    let mut pool = empty_pool(500, 10, "3234476190304153087556629471");
    pool.mint("0xLP", -68000, -60000, I256(n("1000000000000")));
    (pool, Vault::new(params(), cbbtc_usdc_base(), 10))
}

/// The settings without any variable set, with periods of twelve seconds.
fn settings() -> Config {
    let env = EnvVars {
        bf_pool: None,
        bf_pool_fee: None,
        lookup_period: Some("12".to_string()),
        is_regulate_debt: None,
        alm_only: None,
        arb_strategy: None,
        target_cr_pct: None,
        bf_start_date: None,
        bf_end_date: None,
        bf_charm_json: None,
        bf_dlv_json: None,
        bf_arb_json: None,
        bf_arb_price_dir: None,
        arb_mode: None,
        active_rebalance_ratio_deviation_bps: None,
        active_rebalance_mode: None,
        bf_max_ticks: None,
        no_arb_donation: None,
        use_asymmetric_deleverage: None,
        use_dynamic_width: None,
        volatility_window_minutes: None,
        use_fee_recycling: None,
        use_lev_amm: None,
        bf_lev_amm_json: None,
        bf_slow_recenter_json: None,
    };
    let fractions = Fractions {
        dlv_above_wad: Some(10_000_000_000_000_000),
        dlv_below_wad: Some(10_000_000_000_000_000),
        dlv_swap_fee_ppm: 1500,
        lev_amm_swap_fee_ppm: 5000,
        lev_amm_max_arb_ppm: None,
    };
    Config::from_env(&env, &fractions)
}

fn steady() -> Deviation {
    Deviation { below_min: true, emergency: false, shift_speed: 1 }
}

fn event(event_type: EventType) -> PoolEvent {
    PoolEvent {
        event_type,
        id: 1,
        msg_sender: "0xA".to_string(),
        recipient: "".to_string(),
        amount0: I256::ZERO(),
        amount1: I256::ZERO(),
        tick_lower: None,
        tick_upper: None,
        liquidity: I256::ZERO(),
        amount_specified: None,
        sqrt_price_x96: None,
        tick: None,
        block_number: 1,
        log_index: 1,
        date_str: "".to_string(),
        date_ms: 0,
    }
}

fn change(event_type: EventType, lower: i32, upper: i32, liquidity: &str, date_ms: i64) -> PoolEvent {
    let mut e = event(event_type);
    e.tick_lower = Some(lower);
    e.tick_upper = Some(upper);
    e.liquidity = I256(n(liquidity));
    e.date_ms = date_ms;
    e
}

fn trade(amount0: i32, amount1: i32, price: Option<&str>, date_ms: i64) -> PoolEvent {
    let mut e = event(EventType::Swap);
    e.amount0 = I256::from_i32(amount0);
    e.amount1 = I256::from_i32(amount1);
    e.sqrt_price_x96 = price.map(n);
    e.date_ms = date_ms;
    e
}

fn state(pool: &CorePool) -> (String, i32, String) {
    (pool.sqrt_price_x96().to_dec_string(), pool.tick_current(), pool.liquidity().to_dec_string())
}

fn at(price: &str, tick: i32, liquidity: &str) -> (String, i32, String) {
    (price.to_string(), tick, liquidity.to_string())
}

fn ranges(v: &Vault) -> Vec<(i32, i32, String)> {
    let mut all = Vec::new();
    for (lower, upper, liquidity) in [v.wide_info(), v.base_info(), v.limit_info()] {
        all.push((lower, upper, liquidity.to_dec_string()));
    }
    all
}

fn range(lower: i32, upper: i32, liquidity: &str) -> (i32, i32, String) {
    (lower, upper, liquidity.to_string())
}

#[test]
fn events_change_the_pool() {
    let (mut pool, _) = bitcoin_first();
    replay_event(&mut pool, &change(EventType::Mint, 63000, 65040, "500000000000", 0));
    assert_eq!(state(&pool), at("1940685714182491852533977682922", 63972, "1500000000000"));
    replay_event(&mut pool, &trade(1, 0, Some("1904877218999126174071117878790"), 0));
    assert_eq!(state(&pool), at("1904877218999126174071117878790", 63600, "1500000000000"));
    replay_event(&mut pool, &trade(-1, 1, Some("1992550157834486285156577388763"), 0));
    assert_eq!(state(&pool), at("1992550157834486285156577388763", 64500, "1500000000000"));
    replay_event(&mut pool, &trade(1000000, -1, Some("2002537356463005961768866949327"), 0));
    assert_eq!(state(&pool), at("1992516850829580473829427911724", 64499, "1500000000000"));
    replay_event(&mut pool, &trade(0, -5, None, 0));
    assert_eq!(state(&pool), at("4295128740", -887272, "0"));
    replay_event(&mut pool, &trade(0, 1000000000, None, 0));
    assert_eq!(state(&pool), at("1591180506798569495805907660732", 60000, "1000000000000"));
    replay_event(&mut pool, &change(EventType::Burn, 63000, 65040, "200000000000", 0));
    assert_eq!(state(&pool), at("1591180506798569495805907660732", 60000, "1000000000000"));
    replay_event(&mut pool, &change(EventType::Burn, 63000, 65040, "900000000000", 0));
    assert_eq!(state(&pool), at("1591180506798569495805907660732", 60000, "1000000000000"));
    replay_event(&mut pool, &change(EventType::Burn, 63000, 65040, "1", 0));
    assert_eq!(state(&pool), at("1591180506798569495805907660732", 60000, "1000000000000"));
    replay_event(&mut pool, &change(EventType::Mint, 65040, 63000, "5", 0));
    assert_eq!(state(&pool), at("1591180506798569495805907660732", 60000, "1000000000000"));
    replay_event(&mut pool, &change(EventType::Mint, 63000, 65040, "0", 0));
    assert_eq!(state(&pool), at("1591180506798569495805907660732", 60000, "1000000000000"));
}

#[test]
fn swaps_need_ticks() {
    let mut pool = empty_pool(3000, 60, "1940685714182491852533977682922");
    replay_event(&mut pool, &trade(1000, -1, None, 0));
    assert_eq!(state(&pool), at("1940685714182491852533977682922", 63972, "0"));
    let mut minted = change(EventType::Mint, 63000, 65040, "700", 0);
    minted.recipient = "0xB".to_string();
    replay_event(&mut pool, &minted);
    assert_eq!(pool.get_position("0xB", 63000, 65040).liquidity, n("700"));
    assert!(pool.get_position("0xA", 63000, 65040).liquidity.is_zero());
}

#[test]
fn events_are_replayed_the_same_in_parts() {
    let events = vec![
        change(EventType::Mint, 63000, 65040, "500000000000", 1000),
        trade(1000000, -1, None, 2000),
        change(EventType::Burn, 63000, 65040, "1000", 2500),
        trade(-1, 1000000000, None, 4000),
    ];
    let (mut once, _) = bitcoin_first();
    let (mut parts, _) = bitcoin_first();
    let (mut all, _) = bitcoin_first();
    assert_eq!(replay_until(&mut once, &events, 0, 4000), 3);
    let first = replay_until(&mut parts, &events, 0, 2000);
    assert_eq!(first, 1);
    assert_eq!(replay_until(&mut parts, &events, first, 4000), 3);
    assert_eq!(state(&once), state(&parts));
    assert_eq!(replay_until(&mut once, &events, 3, 4001), 4);
    replay_all(&mut all, &events);
    assert_eq!(state(&once), state(&all));
    assert_eq!(once.fee_growth_global_0_x128(), all.fee_growth_global_0_x128());
    assert_eq!(once.fee_growth_global_1_x128(), all.fee_growth_global_1_x128());
}

#[test]
fn pool_terms_and_first_amounts() {
    assert_eq!(pool_terms(None, 500, 10), (500, 10));
    assert_eq!(pool_terms(Some(100), 500, 10), (100, 1));
    assert_eq!(pool_terms(Some(500), 3000, 60), (500, 10));
    assert_eq!(pool_terms(Some(3000), 500, 10), (3000, 60));
    assert_eq!(pool_terms(Some(10000), 500, 10), (10000, 200));
    assert_eq!(initial_deposit(n("166667"), n("1940685714182491852533977682922"), true, false), Some((n("166667"), n("100000200"))));
    assert_eq!(initial_deposit(n("166667"), n("1940685714182491852533977682922"), true, true), Some((n("166667"), n("0"))));
    assert_eq!(initial_deposit(n("166667"), n("3234476190304153087556629471"), false, false), Some((n("100000201"), n("166667"))));
    assert_eq!(initial_deposit(n("166667"), n("3234476190304153087556629471"), false, true), Some((n("0"), n("166667"))));
}

#[test]
fn pool_is_moved_to_a_price() {
    let (mut pool, _) = bitcoin_first();
    assert!(move_to_price(&mut pool, n("1758430331955991512042274893876")));
    assert_eq!(state(&pool), at("1758430331955991512042274893876", 62000, "1000000000000"));
    assert!(move_to_price(&mut pool, n("2147730181506076193678016228739")));
    assert_eq!(state(&pool), at("2147730181506076193678016228739", 66000, "1000000000000"));
    assert!(move_to_price(&mut pool, U256::ZERO()));
    assert_eq!(state(&pool), at("2147730181506076193678016228739", 66000, "1000000000000"));
    assert!(move_to_price(&mut pool, U256::ONE()));
    assert_eq!(state(&pool), at("2147730181506076193678016228739", 66000, "1000000000000"));
    let here = pool.sqrt_price_x96();
    assert!(move_to_price(&mut pool, here));
    assert_eq!(state(&pool), at("2147730181506076193678016228739", 66000, "1000000000000"));
}

#[test]
fn arbitrage_periods_bitcoin_first() {
    let (mut pool, mut vault) = bitcoin_first();
    let mut cfg = settings();
    assert!(open_vault(&mut vault, &mut pool, &cfg, n("100000000"), n("60000000000"), two()));
    assert_eq!(
        ranges(&vault),
        vec![
            range(0, 0, "0"),
            range(62760, 65220, "80956673263"),
            range(63360, 63960, "4511862056"),
        ]
    );
    assert_eq!((vault.idle0, vault.idle1), (n("0"), n("600")));
    assert_eq!(vault.virtual_debt, n("119907220198"));
    assert_eq!(vault.total_supply, n("119907220200"));
    let mut sim = Simulation::new(vault, pool);
    assert!(sim.begin_period());
    let (arb, lev) = sim.open_arb_period(&cfg, two(), Some(n("1962886422806847582908628315895")), 3000).unwrap();
    assert_eq!(arb.fired, true);
    assert_eq!(arb.deviation_bps, 230);
    assert_eq!(arb.zero_for_one, false);
    assert_eq!(arb.profit, n("1815831691"));
    assert_eq!(arb.pre_sqrt, n("1940685714182491852533977682922"));
    assert_eq!((arb.nav, arb.debt), (n("123978137106"), n("119907220198")));
    assert_eq!(lev.fired, false);
    assert_eq!((lev.nav, lev.debt), (n("0"), n("0")));
    let (dlv, alm, changed) =
        sim.close_arb_period(&cfg, two(), 1000000, steady(), Some((1800, 30))).unwrap();
    assert_eq!(dlv.fired, true);
    assert_eq!(dlv.pre_sqrt, n("1959939881606817048145547251884"));
    assert_eq!(dlv.nav, n("123975478973"));
    assert_eq!(alm.fired, true);
    assert_eq!(alm.pre_sqrt, n("1959939881606817048145547251884"));
    assert_eq!(alm.nav, n("123945697492"));
    assert_eq!(changed, false);
    assert_eq!(
        ranges(&sim.vault),
        vec![
            range(0, 0, "0"),
            range(62940, 65400, "84011079583"),
            range(63540, 64140, "12473672"),
        ]
    );
    assert_eq!((sim.vault.idle0, sim.vault.idle1), (n("0"), n("0")));
    assert_eq!(sim.vault.virtual_debt, n("123975479519"));
    assert_eq!(sim.vault.total_supply, n("121906089053"));
    assert_eq!(state(&sim.pool), at("1959939881606817048145547251884", 64169, "1084011079583"));
    let c = sim.counters;
    assert_eq!(
        (c.tick_count, c.alm_calls, c.dlv_calls, c.regulate_debt_calls, c.arb_calls, c.lev_amm_calls, c.slow_recenter_calls),
        (1, 1, 1, 1, 1, 0, 0)
    );
    assert!(sim.begin_period());
    let (arb, lev) = sim.open_arb_period(&cfg, two(), Some(n("1876518699208594957595703472004")), 3000).unwrap();
    assert_eq!(arb.fired, true);
    assert_eq!(arb.deviation_bps, 833);
    assert_eq!(arb.zero_for_one, true);
    assert_eq!(arb.profit, n("42169084920"));
    assert_eq!(arb.pre_sqrt, n("1959939881606817048145547251884"));
    assert_eq!((arb.nav, arb.debt), (n("152860467231"), n("123975479519")));
    assert_eq!(lev.fired, false);
    assert_eq!((lev.nav, lev.debt), (n("0"), n("0")));
    let (dlv, alm, changed) =
        sim.close_arb_period(&cfg, two(), 1012000, steady(), Some((1800, 30))).unwrap();
    assert_eq!(dlv.fired, true);
    assert_eq!(dlv.pre_sqrt, n("1879339826382818687481224634278"));
    assert_eq!(dlv.nav, n("152829237378"));
    assert_eq!(alm.fired, true);
    assert_eq!(alm.pre_sqrt, n("1879339826382818687481224634278"));
    assert_eq!(alm.nav, n("152733499832"));
    assert_eq!(changed, true);
    assert_eq!(
        ranges(&sim.vault),
        vec![
            range(0, 0, "0"),
            range(61500, 65160, "73663309795"),
            range(63360, 63420, "104712965"),
        ]
    );
    assert_eq!((sim.vault.idle0, sim.vault.idle1), (n("0"), n("0")));
    assert_eq!(sim.vault.virtual_debt, n("152829237445"));
    assert_eq!(sim.vault.total_supply, n("134598232873"));
    assert_eq!(state(&sim.pool), at("1879339826382818687481224634278", 63330, "1073663309795"));
    let c = sim.counters;
    assert_eq!(
        (c.tick_count, c.alm_calls, c.dlv_calls, c.regulate_debt_calls, c.arb_calls, c.lev_amm_calls, c.slow_recenter_calls),
        (2, 2, 2, 2, 2, 0, 0)
    );
    assert!(sim.begin_period());
    let (arb, lev) = sim.open_arb_period(&cfg, two(), None, 3000).unwrap();
    assert_eq!(arb.fired, false);
    assert_eq!(arb.deviation_bps, 0);
    assert_eq!(arb.zero_for_one, false);
    assert_eq!(arb.profit, n("0"));
    assert_eq!(arb.pre_sqrt, n("0"));
    assert_eq!((arb.nav, arb.debt), (n("0"), n("0")));
    assert_eq!(lev.fired, false);
    assert_eq!((lev.nav, lev.debt), (n("0"), n("0")));
    let (dlv, alm, changed) =
        sim.close_arb_period(&cfg, two(), 1024000, steady(), Some((1800, 30))).unwrap();
    assert_eq!(dlv.fired, false);
    assert_eq!(dlv.pre_sqrt, n("1879339826382818687481224634278"));
    assert_eq!(dlv.nav, n("152733499832"));
    assert_eq!(alm.fired, false);
    assert_eq!(alm.pre_sqrt, n("1879339826382818687481224634278"));
    assert_eq!(alm.nav, n("152733499832"));
    assert_eq!(changed, false);
    assert_eq!(
        ranges(&sim.vault),
        vec![
            range(0, 0, "0"),
            range(61500, 65160, "73663309795"),
            range(63360, 63420, "104712965"),
        ]
    );
    assert_eq!((sim.vault.idle0, sim.vault.idle1), (n("0"), n("0")));
    assert_eq!(sim.vault.virtual_debt, n("152829237445"));
    assert_eq!(sim.vault.total_supply, n("134598232873"));
    assert_eq!(state(&sim.pool), at("1879339826382818687481224634278", 63330, "1073663309795"));
    let c = sim.counters;
    assert_eq!(
        (c.tick_count, c.alm_calls, c.dlv_calls, c.regulate_debt_calls, c.arb_calls, c.lev_amm_calls, c.slow_recenter_calls),
        (3, 2, 2, 3, 2, 0, 0)
    );
    assert!(sim.begin_period());
    let (arb, lev) = sim.open_arb_period(&cfg, two(), Some(n("2147730181506076193678016228739")), 3000).unwrap();
    assert_eq!(arb.fired, true);
    assert_eq!(arb.deviation_bps, 3060);
    assert_eq!(arb.zero_for_one, false);
    assert_eq!(arb.profit, n("493171461217"));
    assert_eq!(arb.pre_sqrt, n("1879339826382818687481224634278"));
    assert_eq!((arb.nav, arb.debt), (n("661045923929"), n("152829237445")));
    assert_eq!(lev.fired, false);
    assert_eq!((lev.nav, lev.debt), (n("0"), n("0")));
    let (dlv, alm, changed) =
        sim.close_arb_period(&cfg, two(), 1036000, steady(), Some((1800, 30))).unwrap();
    assert_eq!(dlv.fired, true);
    assert_eq!(dlv.pre_sqrt, n("2144506166406258348386151269453"));
    assert_eq!(dlv.nav, n("661045923927"));
    assert_eq!(alm.fired, true);
    assert_eq!(alm.pre_sqrt, n("2144506166406258348386151269453"));
    assert_eq!(alm.nav, n("660053609888"));
    assert_eq!(changed, false);
    assert_eq!(
        ranges(&sim.vault),
        vec![
            range(0, 0, "0"),
            range(64140, 67800, "279102928203"),
            range(65880, 65940, "396758925"),
        ]
    );
    assert_eq!((sim.vault.idle0, sim.vault.idle1), (n("0"), n("0")));
    assert_eq!(sim.vault.virtual_debt, n("661045923929"));
    assert_eq!(sim.vault.total_supply, n("218646832908"));
    assert_eq!(state(&sim.pool), at("2144506166406258348386151269453", 65969, "1279102928203"));
    let c = sim.counters;
    assert_eq!(
        (c.tick_count, c.alm_calls, c.dlv_calls, c.regulate_debt_calls, c.arb_calls, c.lev_amm_calls, c.slow_recenter_calls),
        (4, 3, 3, 4, 3, 0, 0)
    );
}

#[test]
fn arbitrage_periods_bitcoin_second() {
    let (mut pool, mut vault) = bitcoin_second();
    let mut cfg = settings();
    cfg.no_arb_donation = true;
    cfg.use_fee_recycling = false;
    cfg.active_rebalance_mode = ActiveRebalanceMode::Passive;
    assert!(open_vault(&mut vault, &mut pool, &cfg, n("60000000000"), n("100000000"), two()));
    assert_eq!(
        ranges(&vault),
        vec![
            range(0, 0, "0"),
            range(-65180, -62770, "83555718729"),
            range(-63970, -63370, "666892754"),
        ]
    );
    assert_eq!((vault.idle0, vault.idle1), (n("599"), n("0")));
    assert_eq!(vault.virtual_debt, n("119907220199"));
    assert_eq!(vault.total_supply, n("119907220200"));
    let mut sim = Simulation::new(vault, pool);
    assert!(sim.begin_period());
    let (arb, lev) = sim.open_arb_period(&cfg, two(), Some(n("3197893501352299904935852641")), 500).unwrap();
    assert_eq!(arb.fired, true);
    assert_eq!(arb.deviation_bps, 224);
    assert_eq!(arb.zero_for_one, true);
    assert_eq!(arb.profit, n("3172959991"));
    assert_eq!(arb.pre_sqrt, n("3234476190304153087556629471"));
    assert_eq!((arb.nav, arb.debt), (n("122360290551"), n("119907220199")));
    assert_eq!(lev.fired, false);
    assert_eq!((lev.nav, lev.debt), (n("0"), n("0")));
    let (dlv, alm, changed) =
        sim.close_arb_period(&cfg, two(), 1000000, steady(), None).unwrap();
    assert_eq!(dlv.fired, true);
    assert_eq!(dlv.pre_sqrt, n("3198693274655125192340554777"));
    assert_eq!(dlv.nav, n("122358723912"));
    assert_eq!(alm.fired, false);
    assert_eq!(alm.pre_sqrt, n("3198693274655125192340554777"));
    assert_eq!(alm.nav, n("122358723912"));
    assert_eq!(changed, true);
    assert_eq!(
        ranges(&sim.vault),
        vec![
            range(0, 0, "0"),
            range(-65180, -62770, "84400678241"),
            range(-63970, -63370, "673636725"),
        ]
    );
    assert_eq!((sim.vault.idle0, sim.vault.idle1), (n("11570210"), n("0")));
    assert_eq!(sim.vault.virtual_debt, n("122358723912"));
    assert_eq!(sim.vault.total_supply, n("121119785275"));
    assert_eq!(state(&sim.pool), at("3198693274655125192340554777", -64195, "1084400678241"));
    let c = sim.counters;
    assert_eq!(
        (c.tick_count, c.alm_calls, c.dlv_calls, c.regulate_debt_calls, c.arb_calls, c.lev_amm_calls, c.slow_recenter_calls),
        (1, 0, 1, 1, 1, 0, 0)
    );
    assert!(sim.begin_period());
    let (arb, lev) = sim.open_arb_period(&cfg, two(), Some(n("3429754939616956441983760156")), 500).unwrap();
    assert_eq!(arb.fired, true);
    assert_eq!(arb.deviation_bps, 1496);
    assert_eq!(arb.zero_for_one, false);
    assert_eq!(arb.profit, n("120262369620"));
    assert_eq!(arb.pre_sqrt, n("3198693274655125192340554777"));
    assert_eq!((arb.nav, arb.debt), (n("99925352456"), n("122358723912")));
    assert_eq!(lev.fired, false);
    assert_eq!((lev.nav, lev.debt), (n("0"), n("0")));
    let (dlv, alm, changed) =
        sim.close_arb_period(&cfg, two(), 1012000, steady(), None).unwrap();
    assert_eq!(dlv.fired, true);
    assert_eq!(dlv.pre_sqrt, n("3428897393675406247145311255"));
    assert_eq!(dlv.nav, n("99892123189"));
    assert_eq!(alm.fired, false);
    assert_eq!(alm.pre_sqrt, n("3428897393675406247145311255"));
    assert_eq!(alm.nav, n("99892123189"));
    assert_eq!(changed, true);
    assert_eq!(
        ranges(&sim.vault),
        vec![
            range(0, 0, "0"),
            range(-65180, -62770, "76020274608"),
            range(-63970, -63370, "0"),
        ]
    );
    assert_eq!((sim.vault.idle0, sim.vault.idle1), (n("43837245"), n("0")));
    assert_eq!(sim.vault.virtual_debt, n("99892123189"));
    assert_eq!(sim.vault.total_supply, n("108859911033"));
    assert_eq!(state(&sim.pool), at("3428897393675406247145311255", -62806, "1076020274608"));
    let c = sim.counters;
    assert_eq!(
        (c.tick_count, c.alm_calls, c.dlv_calls, c.regulate_debt_calls, c.arb_calls, c.lev_amm_calls, c.slow_recenter_calls),
        (2, 0, 2, 2, 2, 0, 0)
    );
    assert!(sim.begin_period());
    let (arb, lev) = sim.open_arb_period(&cfg, two(), Some(n("3311795741381405722276216399")), 500).unwrap();
    assert_eq!(arb.fired, true);
    assert_eq!(arb.deviation_bps, 671);
    assert_eq!(arb.zero_for_one, true);
    assert_eq!(arb.profit, n("30194497579"));
    assert_eq!(arb.pre_sqrt, n("3428897393675406247145311255"));
    assert_eq!((arb.nav, arb.debt), (n("111807409284"), n("99892123189")));
    assert_eq!(lev.fired, false);
    assert_eq!((lev.nav, lev.debt), (n("0"), n("0")));
    let (dlv, alm, changed) =
        sim.close_arb_period(&cfg, two(), 1024000, steady(), None).unwrap();
    assert_eq!(dlv.fired, true);
    assert_eq!(dlv.pre_sqrt, n("3312624000927024190992983131"));
    assert_eq!(dlv.nav, n("111794782592"));
    assert_eq!(alm.fired, false);
    assert_eq!(alm.pre_sqrt, n("3312624000927024190992983131"));
    assert_eq!(alm.nav, n("111794782592"));
    assert_eq!(changed, false);
    assert_eq!(
        ranges(&sim.vault),
        vec![
            range(0, 0, "0"),
            range(-65180, -62770, "80289927703"),
            range(-63970, -63370, "0"),
        ]
    );
    assert_eq!((sim.vault.idle0, sim.vault.idle1), (n("78874313"), n("0")));
    assert_eq!(sim.vault.virtual_debt, n("111794782966"));
    assert_eq!(sim.vault.total_supply, n("114973991237"));
    assert_eq!(state(&sim.pool), at("3312624000927024190992983131", -63495, "1080289927703"));
    let c = sim.counters;
    assert_eq!(
        (c.tick_count, c.alm_calls, c.dlv_calls, c.regulate_debt_calls, c.arb_calls, c.lev_amm_calls, c.slow_recenter_calls),
        (3, 0, 3, 3, 3, 0, 0)
    );
}

#[test]
fn leveraged_periods() {
    let (mut pool, mut vault) = bitcoin_first();
    let mut cfg = settings();
    cfg.lev_amm.enabled = true;
    cfg.dlv.alm_swap_price_source = "binance".to_string();
    cfg.slow_recenter.enabled = true;
    assert!(open_vault(&mut vault, &mut pool, &cfg, n("100000000"), n("0"), two()));
    assert_eq!(
        ranges(&vault),
        vec![
            range(0, 0, "0"),
            range(0, 0, "0"),
            range(64020, 64620, "83081704651"),
        ]
    );
    assert_eq!((vault.idle0, vault.idle1), (n("0"), n("0")));
    assert_eq!(vault.virtual_debt, n("0"));
    assert_eq!(vault.total_supply, n("100000000"));
    let mut sim = Simulation::new(vault, pool);
    assert!(sim.begin_period());
    let (arb, lev) = sim.open_arb_period(&cfg, two(), Some(n("1962886422806847582908628315895")), 3000).unwrap();
    assert_eq!(arb.fired, true);
    assert_eq!(arb.deviation_bps, 230);
    assert_eq!(arb.zero_for_one, false);
    assert_eq!(arb.profit, n("1749170471"));
    assert_eq!(arb.pre_sqrt, n("1940685714182491852533977682922"));
    assert_eq!((arb.nav, arb.debt), (n("62876301254"), n("0")));
    assert_eq!(lev.fired, true);
    assert_eq!((lev.nav, lev.debt), (n("62876301253"), n("42772701140")));
    assert_eq!(sim.is_recenter_due(&cfg, 1000000), true);
    let (dlv, alm, changed) =
        sim.close_arb_period(&cfg, two(), 1000000, Deviation { below_min: false, emergency: false, shift_speed: 2 }, None).unwrap();
    assert_eq!(dlv.fired, true);
    assert_eq!(dlv.pre_sqrt, n("1959939881606817048145547251884"));
    assert_eq!(dlv.nav, n("62876301253"));
    assert_eq!(alm.fired, true);
    assert_eq!(alm.pre_sqrt, n("1959939881606817048145547251884"));
    assert_eq!(alm.nav, n("62865650470"));
    assert_eq!(changed, false);
    assert_eq!(
        ranges(&sim.vault),
        vec![
            range(0, 0, "0"),
            range(62940, 65400, "35796828978"),
            range(63540, 64140, "5315315"),
        ]
    );
    assert_eq!((sim.vault.idle0, sim.vault.idle1), (n("0"), n("0")));
    assert_eq!(sim.vault.virtual_debt, n("42772701140"));
    assert_eq!(sim.vault.total_supply, n("100000000"));
    assert_eq!(state(&sim.pool), at("1959939881606817048145547251884", 64169, "1035796828978"));
    let c = sim.counters;
    assert_eq!(
        (c.tick_count, c.alm_calls, c.dlv_calls, c.regulate_debt_calls, c.arb_calls, c.lev_amm_calls, c.slow_recenter_calls),
        (1, 1, 1, 1, 1, 1, 0)
    );
    assert!(sim.begin_period());
    let (arb, lev) = sim.open_arb_period(&cfg, two(), Some(n("1802942954213401702246066245761")), 3000).unwrap();
    assert_eq!(arb.fired, true);
    assert_eq!(arb.deviation_bps, 1537);
    assert_eq!(arb.zero_for_one, true);
    assert_eq!(arb.profit, n("152900177780"));
    assert_eq!(arb.pre_sqrt, n("1959939881606817048145547251884"));
    assert_eq!((arb.nav, arb.debt), (n("202775480556"), n("42772701140")));
    assert_eq!(lev.fired, true);
    assert_eq!((lev.nav, lev.debt), (n("173024539609"), n("130299813770")));
    assert_eq!(sim.is_recenter_due(&cfg, 1012000), false);
    let (dlv, alm, changed) =
        sim.close_arb_period(&cfg, two(), 1012000, Deviation { below_min: false, emergency: false, shift_speed: 2 }, None).unwrap();
    assert_eq!(dlv.fired, true);
    assert_eq!(dlv.pre_sqrt, n("1805653468829563935263969952275"));
    assert_eq!(dlv.nav, n("173024539609"));
    assert_eq!(alm.fired, true);
    assert_eq!(alm.pre_sqrt, n("1805653468829563935263969952275"));
    assert_eq!(alm.nav, n("172968428335"));
    assert_eq!(changed, false);
    assert_eq!(
        ranges(&sim.vault),
        vec![
            range(0, 0, "0"),
            range(61320, 63780, "109824654955"),
            range(61920, 62520, "6975959174"),
        ]
    );
    assert_eq!((sim.vault.idle0, sim.vault.idle1), (n("0"), n("0")));
    assert_eq!(sim.vault.virtual_debt, n("130299813770"));
    assert_eq!(sim.vault.total_supply, n("100000000"));
    assert_eq!(state(&sim.pool), at("1805653468829563935263969952275", 62530, "1109824654955"));
    let c = sim.counters;
    assert_eq!(
        (c.tick_count, c.alm_calls, c.dlv_calls, c.regulate_debt_calls, c.arb_calls, c.lev_amm_calls, c.slow_recenter_calls),
        (2, 2, 2, 2, 2, 2, 0)
    );
    assert!(sim.begin_period());
    let (arb, lev) = sim.open_arb_period(&cfg, two(), Some(n("2202097477464783312550544618173")), 3000).unwrap();
    assert_eq!(arb.fired, true);
    assert_eq!(arb.deviation_bps, 4873);
    assert_eq!(arb.zero_for_one, false);
    assert_eq!(arb.profit, n("1128403100260"));
    assert_eq!(arb.pre_sqrt, n("1805653468829563935263969952275"));
    assert_eq!((arb.nav, arb.debt), (n("1311635904810"), n("130299813770")));
    assert_eq!(lev.fired, true);
    assert_eq!((lev.nav, lev.debt), (n("1070440427314"), n("766028350497")));
    assert_eq!(sim.is_recenter_due(&cfg, 1024000), false);
    let (dlv, alm, changed) =
        sim.close_arb_period(&cfg, two(), 1024000, Deviation { below_min: false, emergency: false, shift_speed: 2 }, None).unwrap();
    assert_eq!(dlv.fired, true);
    assert_eq!(dlv.pre_sqrt, n("2198791850165902257521836667833"));
    assert_eq!(dlv.nav, n("1070440427314"));
    assert_eq!(alm.fired, true);
    assert_eq!(alm.pre_sqrt, n("2198791850165902257521836667833"));
    assert_eq!(alm.nav, n("1069062039981"));
    assert_eq!(changed, false);
    assert_eq!(
        ranges(&sim.vault),
        vec![
            range(0, 0, "0"),
            range(65220, 67680, "545733561074"),
            range(66480, 67080, "34664482470"),
        ]
    );
    assert_eq!((sim.vault.idle0, sim.vault.idle1), (n("0"), n("1")));
    assert_eq!(sim.vault.virtual_debt, n("766028350497"));
    assert_eq!(sim.vault.total_supply, n("100000000"));
    assert_eq!(state(&sim.pool), at("2198791850165902257521836667833", 66469, "1545733561074"));
    let c = sim.counters;
    assert_eq!(
        (c.tick_count, c.alm_calls, c.dlv_calls, c.regulate_debt_calls, c.arb_calls, c.lev_amm_calls, c.slow_recenter_calls),
        (3, 3, 3, 3, 3, 3, 0)
    );
}

#[test]
fn replayed_periods() {
    let (mut pool, mut vault) = bitcoin_second();
    let mut cfg = settings();
    cfg.dlv.period = Some(20);
    cfg.active_rebalance_ratio_deviation_bps = 300;
    assert!(open_vault(&mut vault, &mut pool, &cfg, n("60000000000"), n("100000000"), two()));
    assert_eq!(
        ranges(&vault),
        vec![
            range(0, 0, "0"),
            range(-65180, -62770, "83555718729"),
            range(-63970, -63370, "666892754"),
        ]
    );
    assert_eq!((vault.idle0, vault.idle1), (n("599"), n("0")));
    assert_eq!(vault.virtual_debt, n("119907220199"));
    assert_eq!(vault.total_supply, n("119907220200"));
    let mut sim = Simulation::new(vault, pool);
    let events = vec![
        trade(2000000000, -1, Some("3181944736407775542732493898"), 1001000),
        change(EventType::Mint, -64500, -64000, "700000000000", 1011999),
        trade(0, 100000000, None, 1012000),
        trade(-1, 1, Some("3569718755024170436499690729"), 1030000),
        change(EventType::Burn, -64500, -64000, "700000000000", 1050000),
    ];
    assert!(sim.begin_period());
    let (dlv, alm, changed, snap) =
        sim.run_replay_period(&cfg, two(), 1000000, None, &events).unwrap();
    assert_eq!(dlv.fired, false);
    assert_eq!(dlv.pre_sqrt, n("3234476190304153087556629471"));
    assert_eq!(dlv.nav, n("119907220196"));
    assert_eq!(alm.fired, false);
    assert_eq!(alm.pre_sqrt, n("3234476190304153087556629471"));
    assert_eq!(alm.nav, n("119907220196"));
    assert_eq!(changed, true);
    assert_eq!((snap.nav, snap.price), (n("119907220196"), n("600000000000000240000")));
    assert_eq!(snap.cr, Some(n("2000000000000000000")));
    assert_eq!(
        ranges(&sim.vault),
        vec![
            range(0, 0, "0"),
            range(-65180, -62770, "83555718729"),
            range(-63970, -63370, "666892754"),
        ]
    );
    assert_eq!((sim.vault.idle0, sim.vault.idle1), (n("596"), n("0")));
    assert_eq!(sim.vault.virtual_debt, n("119907220196"));
    assert_eq!(sim.vault.total_supply, n("119907220200"));
    assert_eq!(state(&sim.pool), at("3181944736407775542732493898", -64300, "1783555718729"));
    let c = sim.counters;
    assert_eq!(
        (c.tick_count, c.alm_calls, c.dlv_calls, c.regulate_debt_calls, c.arb_calls, c.lev_amm_calls, c.slow_recenter_calls),
        (1, 0, 0, 1, 0, 0, 0)
    );
    assert_eq!((c.event_cursor, c.snapshot_pending), (2, true));
    assert!(sim.begin_period());
    let (dlv, alm, changed, snap) =
        sim.run_replay_period(&cfg, two(), 1012000, None, &events).unwrap();
    assert_eq!(dlv.fired, true);
    assert_eq!(dlv.pre_sqrt, n("3181944736407775542732493898"));
    assert_eq!(dlv.nav, n("123356139973"));
    assert_eq!(alm.fired, true);
    assert_eq!(alm.pre_sqrt, n("3181944736407775542732493898"));
    assert_eq!(alm.nav, n("123307299444"));
    assert_eq!(changed, false);
    assert_eq!((snap.nav, snap.price), (n("123307299444"), n("619974607423405833111")));
    assert_eq!(snap.cr, Some(n("1999604064987618242")));
    assert_eq!(
        ranges(&sim.vault),
        vec![
            range(0, 0, "0"),
            range(-65500, -63090, "84377121296"),
            range(-64900, -64300, "1344021065"),
        ]
    );
    assert_eq!((sim.vault.idle0, sim.vault.idle1), (n("1"), n("0")));
    assert_eq!(sim.vault.virtual_debt, n("123356140459"));
    assert_eq!(sim.vault.total_supply, n("121606240298"));
    assert_eq!(state(&sim.pool), at("3186382618259538596981132660", -64273, "1784377121296"));
    let c = sim.counters;
    assert_eq!(
        (c.tick_count, c.alm_calls, c.dlv_calls, c.regulate_debt_calls, c.arb_calls, c.lev_amm_calls, c.slow_recenter_calls),
        (2, 1, 1, 2, 0, 0, 0)
    );
    assert_eq!((c.event_cursor, c.snapshot_pending), (3, false));
    assert!(sim.begin_period());
    let (dlv, alm, changed, snap) =
        sim.run_replay_period(&cfg, two(), 1024000, None, &events).unwrap();
    assert_eq!(dlv.fired, false);
    assert_eq!(dlv.pre_sqrt, n("3186382618259538596981132660"));
    assert_eq!(dlv.nav, n("122961380462"));
    assert_eq!(alm.fired, false);
    assert_eq!(alm.pre_sqrt, n("3186382618259538596981132660"));
    assert_eq!(alm.nav, n("122961380462"));
    assert_eq!(changed, false);
    assert_eq!((snap.nav, snap.price), (n("122961380462"), n("618248852308824232818")));
    assert_eq!(snap.cr, Some(n("1996799835050520190")));
    assert_eq!(
        ranges(&sim.vault),
        vec![
            range(0, 0, "0"),
            range(-65500, -63090, "84377121296"),
            range(-64900, -64300, "1344021065"),
        ]
    );
    assert_eq!((sim.vault.idle0, sim.vault.idle1), (n("1"), n("2364")));
    assert_eq!(sim.vault.virtual_debt, n("123356140459"));
    assert_eq!(sim.vault.total_supply, n("121606240298"));
    assert_eq!(state(&sim.pool), at("3569718755024170436499690729", -62000, "1000000000000"));
    let c = sim.counters;
    assert_eq!(
        (c.tick_count, c.alm_calls, c.dlv_calls, c.regulate_debt_calls, c.arb_calls, c.lev_amm_calls, c.slow_recenter_calls),
        (3, 1, 1, 3, 0, 0, 0)
    );
    assert_eq!((c.event_cursor, c.snapshot_pending), (4, true));
    assert!(sim.begin_period());
    let (dlv, alm, changed, snap) =
        sim.run_replay_period(&cfg, two(), 1036000, None, &events).unwrap();
    assert_eq!(dlv.fired, true);
    assert_eq!(dlv.pre_sqrt, n("3569718755024170436499690729"));
    assert_eq!(dlv.nav, n("78724766742"));
    assert_eq!(alm.fired, true);
    assert_eq!(alm.pre_sqrt, n("3569718755024170436499690729"));
    assert_eq!(alm.nav, n("78606548786"));
    assert_eq!(changed, false);
    assert_eq!((snap.nav, snap.price), (n("78606548786"), n("492596322744222994468")));
    assert_eq!(snap.cr, Some(n("1997794513347695762")));
    assert_eq!(
        ranges(&sim.vault),
        vec![
            range(0, 0, "0"),
            range(-63200, -60790, "60398996134"),
            range(-62600, -62000, "962080971"),
        ]
    );
    assert_eq!((sim.vault.idle0, sim.vault.idle1), (n("0"), n("0")));
    assert_eq!(sim.vault.virtual_debt, n("78780297681"));
    assert_eq!(sim.vault.total_supply, n("94716988898"));
    assert_eq!(state(&sim.pool), at("3569718755024170436499690729", -62000, "1060398996134"));
    let c = sim.counters;
    assert_eq!(
        (c.tick_count, c.alm_calls, c.dlv_calls, c.regulate_debt_calls, c.arb_calls, c.lev_amm_calls, c.slow_recenter_calls),
        (4, 2, 2, 4, 0, 0, 0)
    );
    assert_eq!((c.event_cursor, c.snapshot_pending), (4, false));
    assert!(sim.begin_period());
    let (dlv, alm, changed, snap) =
        sim.run_replay_period(&cfg, two(), 1048000, None, &events).unwrap();
    assert_eq!(dlv.fired, false);
    assert_eq!(dlv.pre_sqrt, n("3569718755024170436499690729"));
    assert_eq!(dlv.nav, n("78606548786"));
    assert_eq!(alm.fired, false);
    assert_eq!(alm.pre_sqrt, n("3569718755024170436499690729"));
    assert_eq!(alm.nav, n("78606548786"));
    assert_eq!(changed, false);
    assert_eq!((snap.nav, snap.price), (n("78606548786"), n("492596322744222994468")));
    assert_eq!(snap.cr, Some(n("1997794513347695762")));
    assert_eq!(
        ranges(&sim.vault),
        vec![
            range(0, 0, "0"),
            range(-63200, -60790, "60398996134"),
            range(-62600, -62000, "962080971"),
        ]
    );
    assert_eq!((sim.vault.idle0, sim.vault.idle1), (n("0"), n("0")));
    assert_eq!(sim.vault.virtual_debt, n("78780297681"));
    assert_eq!(sim.vault.total_supply, n("94716988898"));
    assert_eq!(state(&sim.pool), at("3569718755024170436499690729", -62000, "1060398996134"));
    let c = sim.counters;
    assert_eq!(
        (c.tick_count, c.alm_calls, c.dlv_calls, c.regulate_debt_calls, c.arb_calls, c.lev_amm_calls, c.slow_recenter_calls),
        (5, 2, 2, 5, 0, 0, 0)
    );
    assert_eq!((c.event_cursor, c.snapshot_pending), (5, true));
}

#[test]
fn debt_is_left_alone_without_leave() {
    let (mut pool, mut vault) = bitcoin_first();
    let mut cfg = settings();
    vault.deposit(&mut pool, n("100000000"), n("60000000000"));
    assert_eq!(dispatch_regulate_debt(&mut vault, &mut pool, &cfg, two(), None), Some((false, false)));
    vault.virtual_debt = n("1");
    cfg.is_regulate_debt = false;
    assert_eq!(dispatch_regulate_debt(&mut vault, &mut pool, &cfg, two(), None), Some((false, false)));
    assert_eq!(vault.virtual_debt, U256::ONE());
}

#[test]
fn a_period_is_recorded() {
    let (mut pool, mut vault) = bitcoin_first();
    vault.deposit(&mut pool, n("100000000"), n("60000000000"));
    let snap = take_snapshot(&vault, &pool).unwrap();
    assert_eq!((snap.nav, snap.price, snap.cr), (n("119999999397"), n("599999999999999999999"), None));
    vault.virtual_debt = n("50000000000");
    let snap = take_snapshot(&vault, &pool).unwrap();
    assert_eq!((snap.nav, snap.price, snap.cr), (n("69999999397"), n("599999999999999999999"), Some(n("2399999987940000000"))));
    vault.lev_amm_notional = n("7");
    vault.lev_amm_collateral = n("8");
    vault.accumulated_fees0 = n("9");
    vault.accumulated_fees1 = n("10");
    let row = log_row(
        &vault,
        &pool,
        1713657600000,
        "2024-04-21 00:00:00".to_string(),
        "60000.5".to_string(),
        21999,
        n("77"),
        "-12".to_string(),
    )
    .unwrap();
    assert_eq!(row.timestamp_ms, 1713657600000);
    assert_eq!(
        row.to_json_line(),
        [
            "{\"date\":\"2024-04-21 00:00:00\",\"rebalanceType\":\"SNAPSHOT\",",
            "\"rawPoolPrice\":\"599999999999999999999\",",
            "\"nonVolatileAssetPrice\":\"599999999999999999999\",\"externalPrice\":60000.5,",
            "\"prevTotalPoolValue\":\"0\",\"afterTotalPoolValue\":\"69999999397\",",
            "\"prevCollateralRatio\":0,\"afterCollateralRatio\":21999,",
            "\"lpRatio\":\"1000000000016666666\",\"swapFeeStable\":\"0\",\"almSwapFeeStable\":\"0\",",
            "\"accumulatedSwapFees0\":\"9\",\"accumulatedSwapFees1\":\"10\",\"debt\":\"50000000000\",",
            "\"idle0\":\"0\",\"idle1\":\"0\",\"total0\":\"99999999\",\"total1\":\"59999999998\",",
            "\"wideAmount0\":\"0\",\"wideAmount1\":\"0\",\"baseAmount0\":\"99999999\",",
            "\"baseAmount1\":\"58366693175\",\"limitAmount0\":\"0\",\"limitAmount1\":\"1633306823\",",
            "\"levAmmCollateral\":\"8\",\"levAmmNotional\":\"7\",\"levAmmDebt\":\"50000000000\",",
            "\"levAmmFeeRevenue\":\"0\",\"volatileHoldValueStable\":\"0\",\"realizedIL\":\"0\",",
            "\"swapFeesGainedThisPeriod\":\"0\",\"regulateDebtAmount\":\"0\",\"currentPPS\":\"0\",",
            "\"fundamentalPPS\":\"0\",\"equilibriumPriceWad\":\"0\",\"arbProfitStable\":\"77\",",
            "\"arbDeviationBps\":-12,\"wide0\":0,\"wide1\":0,\"base0\":62760,\"base1\":65220,",
            "\"limit0\":63360,\"limit1\":63960}\n",
        ]
        .concat()
    );
}

fn snap(nav: u64, price: u64, cr: Option<u64>) -> Snapshot {
    Snapshot { nav: U256::from_u64(nav), price: U256::from_u64(price), cr: cr.map(U256::from_u64) }
}

fn acted(fired: bool, nav: u64) -> dlv_sim::strategy::DispatchOutcome {
    dlv_sim::strategy::DispatchOutcome {
        fired,
        pre_sqrt: n("1940685714182491852533977682922"),
        nav: U256::from_u64(nav),
    }
}

#[test]
fn snapshots_come_first_or_last() {
    let arb = ArbOutcome::none();
    let lev = LevOutcome { fired: true, nav: U256::from_u64(50), debt: U256::from_u64(20) };
    let start = snap(10, 3, Some(5));
    let before = snap(11, 4, Some(6));
    let after = snap(12, 5, Some(7));
    let dlv = acted(true, 30);
    let alm = acted(true, 40);

    let early =
        risk_entries(true, true, true, false, &start, &arb, &lev, &dlv, &alm, Some(before), &after);
    let sources: Vec<EntrySource> = early.iter().map(|e| e.source).collect();
    assert_eq!(
        sources,
        vec![EntrySource::Snap, EntrySource::LevAmm, EntrySource::Dlv, EntrySource::Alm]
    );
    assert_eq!((early[0].nav, early[0].price), (U256::from_u64(10), U256::from_u64(3)));
    assert!(matches!(early[0].ratio, DebtRatio::Ratio(Some(r)) if r == U256::from_u64(5)));
    assert_eq!((early[1].nav, early[1].price), (U256::from_u64(50), U256::from_u64(5)));
    assert!(matches!(
        early[1].ratio,
        DebtRatio::Parts(a, b) if a == U256::from_u64(50) && b == U256::from_u64(20)
    ));
    assert_eq!(early[2].price, n("599999999999999999999"));
    assert_eq!(early[3].nav, U256::from_u64(40));

    let changed =
        risk_entries(true, true, true, true, &start, &arb, &lev, &dlv, &alm, Some(before), &after);
    assert_eq!(changed.len(), 4);
    assert_eq!(changed[3].source, EntrySource::Snap);
    assert_eq!((changed[3].nav, changed[3].price), (U256::from_u64(11), U256::from_u64(4)));

    let quiet = acted(false, 0);
    let late = risk_entries(
        true,
        true,
        false,
        false,
        &start,
        &arb,
        &LevOutcome::none(),
        &quiet,
        &quiet,
        None,
        &after,
    );
    assert_eq!(late.len(), 1);
    assert_eq!((late[0].nav, late[0].price), (U256::from_u64(12), U256::from_u64(5)));

    let unpriced = snap(11, 0, Some(6));
    let fallback = risk_entries(
        true,
        true,
        false,
        false,
        &start,
        &arb,
        &LevOutcome::none(),
        &quiet,
        &quiet,
        Some(unpriced),
        &after,
    );
    assert_eq!((fallback[0].nav, fallback[0].price), (U256::from_u64(12), U256::from_u64(5)));
    assert!(matches!(fallback[0].ratio, DebtRatio::Ratio(Some(r)) if r == U256::from_u64(6)));

    let none = risk_entries(
        true,
        false,
        true,
        false,
        &start,
        &arb,
        &LevOutcome::none(),
        &quiet,
        &quiet,
        Some(before),
        &after,
    );
    assert!(none.is_empty());
}

#[test]
fn snapshots_are_an_hour_apart() {
    let (pool, vault) = bitcoin_first();
    let mut sim = Simulation::new(vault, pool);
    assert!(!sim.check_snapshot(3_599_999));
    assert!(sim.check_snapshot(3_600_000));
    assert!(!sim.check_snapshot(7_199_999));
    assert!(sim.check_snapshot(7_200_000));
    assert_eq!(sim.counters.last_idle_snapshot_ms, 7_200_000);
}

fn count_periods(start: i64, end: i64, step: i64, max: Option<u64>) -> u64 {
    let mut count: u64 = 0;
    let mut moment = first_period(start, end, max);
    while let Some(now) = moment {
        count += 1;
        moment = next_period(now, end, step, count, max);
    }
    count
}

#[test]
fn periods_cover_the_window() {
    assert_eq!(count_periods(1_000, 61_000, 12_000, None), 5);
    assert_eq!(count_periods(1_000, 61_001, 12_000, None), 6);
    assert_eq!(count_periods(1_000, 60_999, 12_000, None), 5);
    assert_eq!(count_periods(1_000, 1_001, 12_000, None), 1);
    assert_eq!(count_periods(1_000, 1_000, 12_000, None), 0);
    assert_eq!(count_periods(2_000, 1_000, 12_000, None), 0);
    assert_eq!(count_periods(1_000, 61_000, 12_000, Some(3)), 3);
    assert_eq!(count_periods(1_000, 61_000, 12_000, Some(9)), 5);
    assert_eq!(count_periods(1_000, 61_000, 12_000, Some(0)), 0);
    assert_eq!(count_periods(1_713_657_600_000, 1_776_729_600_000, 12_000, Some(100_000)), 100_000);
    assert_eq!(next_period(i64::MAX - 5, i64::MAX, 12_000, 1, None), None);
}

#[test]
fn the_window_ends_with_the_prices() {
    let mut cfg = settings();
    assert_eq!(period_step(&cfg), 12_000);
    assert_eq!(simulated_window(&cfg), (cfg.start_ms, cfg.end_ms));
    assert_eq!(clipped_end(&cfg, 5_000, 4_000), 5_000);
    cfg.is_arb_strategy = true;
    cfg.arb.start_ms = 1_000;
    cfg.arb.end_ms = 5_000;
    assert_eq!(simulated_window(&cfg), (1_000, 5_000));
    assert_eq!(clipped_end(&cfg, 5_000, 4_000), 4_000);
    assert_eq!(clipped_end(&cfg, 5_000, 6_000), 5_000);
}
