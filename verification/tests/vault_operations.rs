//! Whole operations of a vault on a pool, with every amount followed to the last unit.
use dlv_sim::arb::{detect_arb, execute_arb_close_gap, try_detect_arb};
use dlv_sim::config::{LevAmmConfig, SlowRecenterConfig, VaultParams};
use dlv_sim::core_pool::CorePool;
use dlv_sim::pool_config::{cbbtc_usdc_base, wbtc_usdc};
use dlv_sim::position_manager::PositionManager;
use dlv_sim::tick_manager::TickManager;
use dlv_sim::types::{I256, U256};
use dlv_sim::vault::Vault;
use dlv_sim::vault_recenter::Deviation;

fn n(s: &str) -> U256 {
    U256::from_dec_str(s)
}

fn two() -> U256 {
    n("2000000000000000000")
}

fn empty_pool(fee: u32, spacing: i32, price: &str) -> CorePool {
    let mut pool = CorePool::new(
        "token0".to_string(),
        "token1".to_string(),
        fee,
        spacing,
        U256::ZERO(),
        U256::ZERO(),
        U256::ZERO(),
        U256::ZERO(),
        0,
        U256::ZERO(),
        U256::ZERO(),
        TickManager::new(),
        PositionManager::new(),
    );
    pool.initialize(n(price));
    pool
}

/// Bitcoin is token 0 and worth 600 units of token 1.
fn bitcoin_first() -> (CorePool, Vault) {
    let mut pool = empty_pool(3000, 60, "1940685714182491852533977682922");
    pool.mint("0xLP", 60000, 68400, I256(n("1000000000000")));
    let params = VaultParams {
        wide_range_weight: 10,
        wide_threshold: 6000,
        base_threshold: 1200,
        limit_threshold: 600,
        period: 86400,
    };
    (pool, Vault::new(params, wbtc_usdc(), 60))
}

/// Bitcoin is token 1, at the same value.
fn bitcoin_second() -> (CorePool, Vault) {
    let mut pool = empty_pool(500, 10, "3234476190304153087556629471");
    pool.mint("0xLP", -68000, -60000, I256(n("1000000000000")));
    let params = VaultParams {
        wide_range_weight: 10,
        wide_threshold: 6000,
        base_threshold: 1200,
        limit_threshold: 600,
        period: 86400,
    };
    (pool, Vault::new(params, cbbtc_usdc_base(), 10))
}

fn ranges(v: &Vault) -> Vec<(i32, i32, String)> {
    let mut all = Vec::new();
    for (lower, upper, liquidity) in [v.wide_info(), v.base_info(), v.limit_info()] {
        all.push((lower, upper, liquidity.to_dec_string()));
    }
    all
}

fn range(lower: i32, upper: i32, liquidity: &str) -> (i32, i32, String) {
    (lower, upper, liquidity.to_string())
}

fn pair(p: (U256, U256)) -> (String, String) {
    (p.0.to_dec_string(), p.1.to_dec_string())
}

fn both(a: &str, b: &str) -> (String, String) {
    (a.to_string(), b.to_string())
}

fn swap(pool: &mut CorePool, zero_for_one: bool, amount: &str) -> (String, String) {
    let (a0, a1) = pool.swap(zero_for_one, I256(n(amount)), None);
    (a0.to_dec_string(), a1.to_dec_string())
}

#[test]
fn deposit_fills_ranges_bitcoin_first() {
    let (mut pool, mut vault) = bitcoin_first();
    vault.deposit(&mut pool, n("100000000"), n("50000000000"));
    assert_eq!(
        ranges(&vault),
        vec![
            range(0, 0, "0"),
            range(62760, 65220, "34702717489"),
            range(64020, 64620, "11909516439"),
        ]
    );
    assert_eq!(pair((vault.idle0, vault.idle1)), both("0", "0"));
    assert_eq!(vault.total_supply, n("50000000000"));
    assert_eq!(pair(vault.total_amounts(&pool)), both("99999998", "49999999999"));
    assert_eq!(pool.sqrt_price_x96(), n("1940685714182491852533977682922"));
    assert_eq!(pool.tick_current(), 63972);
    assert_eq!(pool.liquidity(), n("1034702717489"));
}

#[test]
fn fees_are_collected_bitcoin_first() {
    let (mut pool, mut vault) = bitcoin_first();
    vault.deposit(&mut pool, n("100000000"), n("50000000000"));
    assert_eq!(swap(&mut pool, true, "50000000"), both("50000000", "-29874744295"));
    assert_eq!(swap(&mut pool, false, "10000000000"), both("-16649351", "10000000000"));
    assert_eq!(pool.sqrt_price_x96(), n("1939161589147146344632936227821"));
    assert_eq!(pool.tick_current(), 63956);
    assert_eq!(pool.liquidity(), n("1034702717489"));
    assert_eq!(pair(vault.all_fees_pub(&pool)), both("5030", "1006164"));
    assert_eq!(pair(vault.total_amounts(&pool)), both("101118539", "49333424348"));
    let value = vault.total_value_in_stable(&pool, None);
    assert_eq!(value, n("109909288565"));
    vault.collect_fees(&mut pool);
    assert_eq!(pair((vault.accumulated_fees0, vault.accumulated_fees1)), both("5030", "1006164"));
    assert_eq!(pair((vault.idle0, vault.idle1)), both("5030", "1006164"));
    assert_eq!(pair(vault.total_amounts(&pool)), both("101118539", "49333424348"));
    assert_eq!(
        ranges(&vault),
        vec![
            range(0, 0, "0"),
            range(62760, 65220, "34702717489"),
            range(64020, 64620, "11909516439"),
        ]
    );
    assert_eq!(vault.total_value_in_stable(&pool, None), value);
    assert_eq!(pair(vault.all_fees_pub(&pool)), both("0", "0"));
}

#[test]
fn shares_come_and_go_bitcoin_first() {
    let (mut pool, mut vault) = bitcoin_first();
    vault.deposit(&mut pool, n("100000000"), n("50000000000"));
    assert_eq!(swap(&mut pool, true, "50000000"), both("50000000", "-29874744295"));
    assert_eq!(swap(&mut pool, false, "10000000000"), both("-16649351", "10000000000"));
    let taken = vault.deposit_pro_rata(&mut pool, n("10000000"), n("1000000000"));
    assert_eq!(pair(taken), both("2049697", "1000000000"));
    assert_eq!(vault.total_supply, n("51013511643"));
    assert_eq!(
        ranges(&vault),
        vec![
            range(0, 0, "0"),
            range(62760, 65220, "35406149653"),
            range(64020, 64620, "12150925110"),
        ]
    );
    assert_eq!(pair((vault.idle0, vault.idle1)), both("102", "20396"));
    let out = vault.withdraw_shares(&mut pool, n("12753377910"));
    assert_eq!(pair(out), both("25792057", "12583356083"));
    assert_eq!(vault.total_supply, n("38260133733"));
    assert_eq!(
        ranges(&vault),
        vec![
            range(0, 0, "0"),
            range(62760, 65220, "26554612241"),
            range(64020, 64620, "9113193833"),
        ]
    );
    assert_eq!(pair((vault.idle0, vault.idle1)), both("3852", "769923"));
    assert_eq!(pair(vault.total_amounts(&pool)), both("77376179", "37750068265"));
    assert_eq!(pair(vault.withdraw_shares(&mut pool, U256::ZERO())), both("0", "0"));
    assert_eq!(vault.total_supply, n("38260133733"));
    vault.withdraw_all(&mut pool);
    assert_eq!(
        ranges(&vault),
        vec![
            range(0, 0, "0"),
            range(0, 0, "0"),
            range(0, 0, "0"),
        ]
    );
    assert_eq!(pair((vault.idle0, vault.idle1)), both("77376181", "37750068266"));
    assert_eq!(pool.sqrt_price_x96(), n("1939161589147146344632936227821"));
    assert_eq!(pool.tick_current(), 63956);
    assert_eq!(pool.liquidity(), n("1000000000000"));
    vault.rebalance_from_idle(&mut pool);
    assert_eq!(
        ranges(&vault),
        vec![
            range(0, 0, "0"),
            range(62700, 65160, "25324953131"),
            range(63960, 64560, "14053483513"),
        ]
    );
    assert_eq!(pair((vault.idle0, vault.idle1)), both("0", "0"));
}

#[test]
fn values_of_holdings_bitcoin_first() {
    let (mut pool, mut vault) = bitcoin_first();
    vault.deposit(&mut pool, n("100000000"), n("50000000000"));
    assert_eq!(swap(&mut pool, true, "50000000"), both("50000000", "-29874744295"));
    vault.virtual_debt = n("50000000000");
    let other = n("1962886422806847582908628315895");
    assert_eq!(pair(vault.total_amounts_round_up(&pool)), both("101676940", "48998036060"));
    assert_eq!(pair(vault.lp_amounts(&pool)), both("101671908", "48998036059"));
    assert_eq!(pair(vault.lp_amounts_round_up(&pool)), both("101671910", "48998036060"));
    assert_eq!(pair(vault.total_amounts_at(&pool, Some(other))), both("79635797", "62367620060"));
    let parts = vault.per_range_amounts(&pool, None);
    assert_eq!(pair(parts[0]), both("0", "0"));
    assert_eq!(pair(parts[1]), both("87337205", "48998036059"));
    assert_eq!(pair(parts[2]), both("14334703", "0"));
    assert_eq!(vault.total_value_in_stable(&pool, None), n("109860464480"));
    assert_eq!(vault.total_value_in_stable(&pool, Some(other)), n("111407957161"));
    assert_eq!(vault.total_pool_value(&pool, None), n("59860464480"));
    assert_eq!(vault.total_pool_value(&pool, Some(other)), n("61407957161"));
    assert_eq!(vault.lp_ratio(&pool, None), n("805062110841263883"));
    assert_eq!(vault.lp_ratio(&pool, Some(other)), n("785100096771504828"));
    assert_eq!(vault.collateral_ratio_wad(&pool, None), n("2197209289600000000"));
    assert_eq!(vault.collateral_ratio_wad(&pool, Some(other)), n("2228159143220000000"));
    assert_eq!(vault.share_deviation_bps(&pool, None), 540);
    assert_eq!(vault.share_deviation_bps(&pool, Some(other)), 602);
    let nav = vault.total_pool_value(&pool, None);
    let (now, fair, price) = vault.compute_fundamental_pps(&pool, nav, None);
    assert_eq!(now, n("1197209289600000000"));
    assert_eq!(fair, n("1211980830240000000"));
    assert_eq!(price, n("606242239507302470646"));
}

#[test]
fn debt_follows_its_target_bitcoin_first() {
    let (mut pool, mut vault) = bitcoin_first();
    vault.deposit(&mut pool, n("100000000"), n("50000000000"));
    let plan = vault.rebalance_borrowed_amount(&pool, None, two(), 500).unwrap();
    assert_eq!(plan.mode, 1);
    assert_eq!(plan.amount, n("109969159551"));
    assert_eq!(plan.swap_fee, n("30839247"));
    vault.rebalance_debt(&mut pool, two(), 500);
    assert_eq!(vault.virtual_debt, n("109969159551"));
    assert_eq!(vault.total_supply, n("99971963000"));
    assert_eq!(
        ranges(&vault),
        vec![
            range(0, 0, "0"),
            range(62760, 65220, "69385975776"),
            range(64020, 64620, "23812354735"),
        ]
    );
    assert_eq!(pair((vault.idle0, vault.idle1)), both("0", "1320"));
    assert_eq!(vault.collateral_ratio_wad(&pool, None), n("1999999991042943275"));
    assert_eq!(swap(&mut pool, true, "30000000"), both("30000000", "-17933713511"));
    let plan = vault.rebalance_borrowed_amount(&pool, None, two(), 500).unwrap();
    assert_eq!(plan.mode, 2);
    assert_eq!(plan.amount, n("161553780"));
    assert_eq!(plan.swap_fee, n("44473"));
    assert_eq!(plan.shares_to_burn, n("73507730"));
    assert_eq!(plan.withdraw_stable, n("72652148"));
    assert_eq!(plan.withdraw_volatile, n("148446"));
    vault.rebalance_debt_dlv(&mut pool, two(), 500);
    assert_eq!(vault.virtual_debt, n("109804151331"));
    assert_eq!(vault.total_supply, n("99898455270"));
    assert_eq!(
        ranges(&vault),
        vec![
            range(0, 0, "0"),
            range(62760, 65220, "69385975701"),
            range(64020, 64620, "23588345379"),
        ]
    );
    assert_eq!(pair((vault.idle0, vault.idle1)), both("1", "1321"));
    assert_eq!(vault.collateral_ratio_wad(&pool, None), n("2000031463855948264"));
    let before = vault.virtual_debt;
    vault.rebalance_debt(&mut pool, n("1000000000000000000"), 500);
    assert_eq!(vault.virtual_debt, before);
}

#[test]
fn debt_is_regulated_bitcoin_first() {
    let (mut pool, mut vault) = bitcoin_first();
    vault.deposit(&mut pool, n("100000000"), n("50000000000"));
    assert_eq!(vault.regulate_debt(&pool, None, two()), "noop");
    vault.virtual_debt = n("50000000000");
    assert_eq!(vault.regulate_debt(&pool, None, two()), "mint");
    assert_eq!(vault.virtual_debt, n("59999998798"));
    assert_eq!(pair((vault.idle0, vault.idle1)), both("0", "9999998798"));
    vault.deploy_idle_to_lp(&mut pool);
    assert_eq!(
        ranges(&vault),
        vec![
            range(0, 0, "0"),
            range(62760, 65220, "34702717489"),
            range(64020, 64620, "11909516439"),
        ]
    );
    assert_eq!(pair((vault.idle0, vault.idle1)), both("0", "9999998798"));
    assert_eq!(swap(&mut pool, false, "40000000000"), both("-66362246", "40000000000"));
    vault.idle1 = vault.idle1 + n("3000000000");
    vault.virtual_debt = n("70000000000");
    let worth = vault.total_pool_value(&pool, None);
    assert_eq!(worth, n("53190885013"));
    assert_eq!(vault.regulate_debt(&pool, None, two()), "burn");
    assert_eq!(vault.virtual_debt, n("64507781101"));
    assert_eq!(pair((vault.idle0, vault.idle1)), both("0", "7507779899"));
    assert_eq!(vault.total_pool_value(&pool, None), worth);
    assert_eq!(vault.regulate_debt(&pool, None, n("1000000000000000000")), "noop");
}

#[test]
fn sides_are_evened_bitcoin_first() {
    let (pool, mut vault) = bitcoin_first();
    vault.idle0 = n("100000000");
    vault.idle1 = n("10000000000");
    vault.active_rebalance_swap(None, &pool, 500);
    assert_eq!(pair((vault.idle0, vault.idle1)), both("58322915", "34993747873"));
    vault.idle0 = n("10000000");
    vault.idle1 = n("50000000000");
    vault.active_rebalance_swap(None, &pool, 500);
    assert_eq!(pair((vault.idle0, vault.idle1)), both("46657497", "27994498624"));
    vault.active_rebalance_swap(Some(n("1962886422806847582908628315895")), &pool, 0);
    assert_eq!(pair((vault.idle0, vault.idle1)), both("46132775", "28316576169"));
    vault.idle0 = U256::ZERO();
    vault.idle1 = U256::ZERO();
    vault.active_rebalance_swap(None, &pool, 500);
    assert_eq!(pair((vault.idle0, vault.idle1)), both("0", "0"));
}

#[test]
fn deposit_fills_ranges_bitcoin_second() {
    let (mut pool, mut vault) = bitcoin_second();
    vault.deposit(&mut pool, n("50000000000"), n("100000000"));
    assert_eq!(
        ranges(&vault),
        vec![
            range(0, 0, "0"),
            range(-65180, -62770, "34982648477"),
            range(-64580, -63980, "13540004519"),
        ]
    );
    assert_eq!(pair((vault.idle0, vault.idle1)), both("1", "0"));
    assert_eq!(vault.total_supply, n("50000000000"));
    assert_eq!(pair(vault.total_amounts(&pool)), both("49999999999", "99999998"));
    assert_eq!(pool.sqrt_price_x96(), n("3234476190304153087556629471"));
    assert_eq!(pool.tick_current(), -63973);
    assert_eq!(pool.liquidity(), n("1034982648477"));
}

#[test]
fn fees_are_collected_bitcoin_second() {
    let (mut pool, mut vault) = bitcoin_second();
    vault.deposit(&mut pool, n("50000000000"), n("100000000"));
    assert_eq!(swap(&mut pool, true, "30000000000"), both("30000000000", "-49916316"));
    assert_eq!(swap(&mut pool, false, "20000000"), both("-12016520113", "20000000"));
    assert_eq!(pool.sqrt_price_x96(), n("3232199236888203536528310582"));
    assert_eq!(pool.tick_current(), -63987);
    assert_eq!(pool.liquidity(), n("1048522652996"));
    assert_eq!(pair(vault.all_fees_pub(&pool)), both("634770", "462"));
    assert_eq!(pair(vault.total_amounts(&pool)), both("50713451781", "98813337"));
    let value = vault.total_value_in_stable(&pool, None);
    assert_eq!(value, n("110085015394"));
    vault.collect_fees(&mut pool);
    assert_eq!(pair((vault.accumulated_fees0, vault.accumulated_fees1)), both("634770", "462"));
    assert_eq!(pair((vault.idle0, vault.idle1)), both("634771", "462"));
    assert_eq!(pair(vault.total_amounts(&pool)), both("50713451781", "98813337"));
    assert_eq!(
        ranges(&vault),
        vec![
            range(0, 0, "0"),
            range(-65180, -62770, "34982648477"),
            range(-64580, -63980, "13540004519"),
        ]
    );
    assert_eq!(vault.total_value_in_stable(&pool, None), value);
    assert_eq!(pair(vault.all_fees_pub(&pool)), both("0", "0"));
}

#[test]
fn shares_come_and_go_bitcoin_second() {
    let (mut pool, mut vault) = bitcoin_second();
    vault.deposit(&mut pool, n("50000000000"), n("100000000"));
    assert_eq!(swap(&mut pool, true, "30000000000"), both("30000000000", "-49916316"));
    assert_eq!(swap(&mut pool, false, "20000000"), both("-12016520113", "20000000"));
    let taken = vault.deposit_pro_rata(&mut pool, n("1000000000"), n("10000000"));
    assert_eq!(pair(taken), both("1000000000", "1948465"));
    assert_eq!(vault.total_supply, n("50985931705"));
    assert_eq!(
        ranges(&vault),
        vec![
            range(0, 0, "0"),
            range(-65180, -62770, "35672458522"),
            range(-64580, -63980, "13806994913"),
        ]
    );
    assert_eq!(pair((vault.idle0, vault.idle1)), both("12517", "9"));
    let out = vault.withdraw_shares(&mut pool, n("12746482926"));
    assert_eq!(pair(out), both("12928362942", "25190449"));
    assert_eq!(vault.total_supply, n("38239448779"));
    assert_eq!(
        ranges(&vault),
        vec![
            range(0, 0, "0"),
            range(-65180, -62770, "26754343892"),
            range(-64580, -63980, "10355246185"),
        ]
    );
    assert_eq!(pair((vault.idle0, vault.idle1)), both("485468", "356"));
    assert_eq!(pair(vault.total_amounts(&pool)), both("38785088837", "75571353"));
    assert_eq!(pair(vault.withdraw_shares(&mut pool, U256::ZERO())), both("0", "0"));
    assert_eq!(vault.total_supply, n("38239448779"));
    vault.withdraw_all(&mut pool);
    assert_eq!(
        ranges(&vault),
        vec![
            range(0, 0, "0"),
            range(0, 0, "0"),
            range(0, 0, "0"),
        ]
    );
    assert_eq!(pair((vault.idle0, vault.idle1)), both("38785088839", "75571355"));
    assert_eq!(pool.sqrt_price_x96(), n("3232199236888203536528310582"));
    assert_eq!(pool.tick_current(), -63987);
    assert_eq!(pool.liquidity(), n("1000000000000"));
    vault.rebalance_from_idle(&mut pool);
    assert_eq!(
        ranges(&vault),
        vec![
            range(0, 0, "0"),
            range(-65190, -62780, "27027926064"),
            range(-64590, -63990, "9278370878"),
        ]
    );
    assert_eq!(pair((vault.idle0, vault.idle1)), both("1", "0"));
}

#[test]
fn values_of_holdings_bitcoin_second() {
    let (mut pool, mut vault) = bitcoin_second();
    vault.deposit(&mut pool, n("50000000000"), n("100000000"));
    assert_eq!(swap(&mut pool, true, "30000000000"), both("30000000000", "-49916316"));
    vault.virtual_debt = n("50000000000");
    let other = n("3197893501352299904935852641");
    assert_eq!(pair(vault.total_amounts_round_up(&pool)), both("51269542234", "97887796"));
    assert_eq!(pair(vault.lp_amounts(&pool)), both("51268907461", "97887794"));
    assert_eq!(pair(vault.lp_amounts_round_up(&pool)), both("51268907463", "97887796"));
    assert_eq!(pair(vault.total_amounts_at(&pool, Some(other))), both("63472807262", "77802602"));
    let parts = vault.per_range_amounts(&pool, None);
    assert_eq!(pair(parts[0]), both("0", "0"));
    assert_eq!(pair(parts[1]), both("51004564969", "81997843"));
    assert_eq!(pair(parts[2]), both("264342492", "15889951"));
    assert_eq!(vault.total_value_in_stable(&pool, None), n("110140007458"));
    assert_eq!(vault.total_value_in_stable(&pool, Some(other)), n("111353663770"));
    assert_eq!(vault.total_pool_value(&pool, None), n("60140007458"));
    assert_eq!(vault.total_pool_value(&pool, Some(other)), n("61353663770"));
    assert_eq!(vault.lp_ratio(&pool, None), n("870887311496060362"));
    assert_eq!(vault.lp_ratio(&pool, Some(other)), n("853296010237589094"));
    assert_eq!(vault.collateral_ratio_wad(&pool, None), n("2202800149160000000"));
    assert_eq!(vault.collateral_ratio_wad(&pool, Some(other)), n("2227073275400000000"));
    assert_eq!(vault.share_deviation_bps(&pool, None), 345);
    assert_eq!(vault.share_deviation_bps(&pool, Some(other)), 396);
    let nav = vault.total_pool_value(&pool, None);
    let (now, fair, price) = vault.compute_fundamental_pps(&pool, nav, None);
    assert_eq!(now, n("1202800149160000000"));
    assert_eq!(fair, n("1210442078420000000"));
    assert_eq!(price, n("1651651295528064"));
}

#[test]
fn debt_follows_its_target_bitcoin_second() {
    let (mut pool, mut vault) = bitcoin_second();
    vault.deposit(&mut pool, n("50000000000"), n("100000000"));
    let plan = vault.rebalance_borrowed_amount(&pool, None, two(), 500).unwrap();
    assert_eq!(plan.mode, 1);
    assert_eq!(plan.amount, n("109969159552"));
    assert_eq!(plan.swap_fee, n("30839247"));
    vault.rebalance_debt(&mut pool, two(), 500);
    assert_eq!(vault.virtual_debt, n("109969159552"));
    assert_eq!(vault.total_supply, n("99971963000"));
    assert_eq!(
        ranges(&vault),
        vec![
            range(0, 0, "0"),
            range(-65180, -62770, "69945680783"),
            range(-64580, -63980, "27072416446"),
        ]
    );
    assert_eq!(pair((vault.idle0, vault.idle1)), both("1322", "0"));
    assert_eq!(vault.collateral_ratio_wad(&pool, None), n("1999999991033849817"));
    assert_eq!(swap(&mut pool, false, "30000000"), both("-17978658293", "30000000"));
    let plan = vault.rebalance_borrowed_amount(&pool, None, two(), 500).unwrap();
    assert_eq!(plan.mode, 2);
    assert_eq!(plan.amount, n("164801112"));
    assert_eq!(plan.swap_fee, n("45370"));
    assert_eq!(plan.shares_to_burn, n("74986391"));
    assert_eq!(plan.withdraw_stable, n("74104813"));
    assert_eq!(plan.withdraw_volatile, n("151443"));
    vault.rebalance_debt_dlv(&mut pool, two(), 500);
    assert_eq!(vault.virtual_debt, n("109803816352"));
    assert_eq!(vault.total_supply, n("99896976609"));
    assert_eq!(
        ranges(&vault),
        vec![
            range(0, 0, "0"),
            range(-65180, -62770, "69945680626"),
            range(-64580, -63980, "26844360288"),
        ]
    );
    assert_eq!(pair((vault.idle0, vault.idle1)), both("1323", "1"));
    assert_eq!(vault.collateral_ratio_wad(&pool, None), n("2000004946840811604"));
    let before = vault.virtual_debt;
    vault.rebalance_debt(&mut pool, n("1000000000000000000"), 500);
    assert_eq!(vault.virtual_debt, before);
}

#[test]
fn debt_is_regulated_bitcoin_second() {
    let (mut pool, mut vault) = bitcoin_second();
    vault.deposit(&mut pool, n("50000000000"), n("100000000"));
    assert_eq!(vault.regulate_debt(&pool, None, two()), "noop");
    vault.virtual_debt = n("50000000000");
    assert_eq!(vault.regulate_debt(&pool, None, two()), "mint");
    assert_eq!(vault.virtual_debt, n("59999998799"));
    assert_eq!(pair((vault.idle0, vault.idle1)), both("9999998800", "0"));
    vault.deploy_idle_to_lp(&mut pool);
    assert_eq!(
        ranges(&vault),
        vec![
            range(0, 0, "0"),
            range(-65180, -62770, "34982648477"),
            range(-64580, -63980, "13540004519"),
        ]
    );
    assert_eq!(pair((vault.idle0, vault.idle1)), both("9999998800", "0"));
    assert_eq!(swap(&mut pool, true, "40000000000"), both("40000000000", "-66529202"));
    vault.idle0 = vault.idle0 + n("3000000000");
    vault.virtual_debt = n("70000000000");
    let worth = vault.total_pool_value(&pool, None);
    assert_eq!(worth, n("53185833416"));
    assert_eq!(vault.regulate_debt(&pool, None, two()), "burn");
    assert_eq!(vault.virtual_debt, n("63721208108"));
    assert_eq!(pair((vault.idle0, vault.idle1)), both("6721206908", "0"));
    assert_eq!(vault.total_pool_value(&pool, None), worth);
    assert_eq!(vault.regulate_debt(&pool, None, n("1000000000000000000")), "noop");
}

#[test]
fn sides_are_evened_bitcoin_second() {
    let (pool, mut vault) = bitcoin_second();
    vault.idle0 = n("10000000000");
    vault.idle1 = n("100000000");
    vault.active_rebalance_swap(None, &pool, 500);
    assert_eq!(pair((vault.idle0, vault.idle1)), both("34993747874", "58322915"));
    vault.idle0 = n("50000000000");
    vault.idle1 = n("10000000");
    vault.active_rebalance_swap(None, &pool, 500);
    assert_eq!(pair((vault.idle0, vault.idle1)), both("27994498624", "46657497"));
    vault.active_rebalance_swap(Some(n("3197893501352299904935852641")), &pool, 0);
    assert_eq!(pair((vault.idle0, vault.idle1)), both("28316576169", "46132775"));
    vault.idle0 = U256::ZERO();
    vault.idle1 = U256::ZERO();
    vault.active_rebalance_swap(None, &pool, 500);
    assert_eq!(pair((vault.idle0, vault.idle1)), both("0", "0"));
}

#[test]
fn leverage_market_maker_bitcoin_first() {
    let (mut pool, mut vault) = bitcoin_first();
    vault.deposit(&mut pool, n("100000000"), n("0"));
    let terms = LevAmmConfig {
        enabled: true,
        swap_fee_ppm: 500,
        max_arb_per_tick_ppm: None,
    };
    let (fee, fired) = vault.run_lev_amm_step(&mut pool, &terms, two(), None);
    assert_eq!((fee, fired), (n("0"), true));
    assert_eq!(vault.virtual_debt, n("59999999399"));
    assert_eq!(
        ranges(&vault),
        vec![
            range(0, 0, "0"),
            range(62760, 65220, "40509657281"),
            range(63360, 63960, "2257675754"),
        ]
    );
    assert_eq!(pair((vault.idle0, vault.idle1)), both("0", "0"));
    assert!(vault.pending_lev_amm_mode.is_none());
    assert_eq!(vault.lev_amm_notional, n("119999998798"));
    assert_eq!(vault.lev_amm_collateral, n("119999998798"));
    let (fee, fired) = vault.run_lev_amm_step(&mut pool, &terms, two(), None);
    assert_eq!((fee, fired), (n("0"), false));
    assert_eq!(vault.virtual_debt, n("59999999399"));
    assert_eq!(
        ranges(&vault),
        vec![
            range(0, 0, "0"),
            range(62760, 65220, "40509657281"),
            range(63360, 63960, "2257675754"),
        ]
    );
    assert_eq!(pair((vault.idle0, vault.idle1)), both("0", "0"));
    assert!(vault.pending_lev_amm_mode.is_none());
    let (fee, fired) = vault.run_lev_amm_step(&mut pool, &terms, two(), Some(n("2084258288086575875858146300394")));
    assert_eq!((fee, fired), (n("1861121"), true));
    assert_eq!(vault.virtual_debt, n("63722243215"));
    assert_eq!(
        ranges(&vault),
        vec![
            range(0, 0, "0"),
            range(62760, 65220, "40509657281"),
            range(63360, 63960, "2257675754"),
        ]
    );
    assert_eq!(pair((vault.idle0, vault.idle1)), both("0", "3616743902"));
    assert!(vault.pending_lev_amm_mode.is_none());
    let (fee, fired) = vault.run_lev_amm_step(&mut pool, &terms, two(), Some(n("1758430331955991512042274893876")));
    assert_eq!((fee, fired), (n("12121744"), true));
    assert_eq!(vault.virtual_debt, n("39478754971"));
    assert_eq!(
        ranges(&vault),
        vec![
            range(0, 0, "0"),
            range(62760, 65220, "31242419730"),
            range(63360, 63960, "0"),
        ]
    );
    assert_eq!(pair((vault.idle0, vault.idle1)), both("1", "3628865648"));
    assert!(vault.pending_lev_amm_mode.is_none());
    let capped = LevAmmConfig {
        enabled: true,
        swap_fee_ppm: 500,
        max_arb_per_tick_ppm: Some(1000),
    };
    let (fee, fired) = vault.run_lev_amm_step(&mut pool, &capped, two(), Some(n("2147730181506076193678016228739")));
    assert_eq!((fee, fired), (n("64559"), true));
    assert_eq!(vault.virtual_debt, n("39607874232"));
    assert_eq!(
        ranges(&vault),
        vec![
            range(0, 0, "0"),
            range(62760, 65220, "31242419730"),
            range(63360, 63960, "0"),
        ]
    );
    assert_eq!(pair((vault.idle0, vault.idle1)), both("1", "3726825595"));
    assert!(vault.pending_lev_amm_mode.is_none());
    assert_eq!(vault.lev_amm_fee_revenue, n("14047424"));
}

#[test]
fn leverage_market_maker_bitcoin_second() {
    let (mut pool, mut vault) = bitcoin_second();
    vault.deposit(&mut pool, n("0"), n("100000000"));
    let terms = LevAmmConfig {
        enabled: true,
        swap_fee_ppm: 500,
        max_arb_per_tick_ppm: None,
    };
    let (fee, fired) = vault.run_lev_amm_step(&mut pool, &terms, two(), None);
    assert_eq!((fee, fired), (n("0"), true));
    assert_eq!(vault.virtual_debt, n("59999999400"));
    assert_eq!(
        ranges(&vault),
        vec![
            range(0, 0, "0"),
            range(-65180, -62770, "41810185537"),
            range(-63970, -63370, "333703557"),
        ]
    );
    assert_eq!(pair((vault.idle0, vault.idle1)), both("0", "0"));
    assert!(vault.pending_lev_amm_mode.is_none());
    assert_eq!(vault.lev_amm_notional, n("119999998800"));
    assert_eq!(vault.lev_amm_collateral, n("119999998800"));
    let (fee, fired) = vault.run_lev_amm_step(&mut pool, &terms, two(), None);
    assert_eq!((fee, fired), (n("0"), false));
    assert_eq!(vault.virtual_debt, n("59999999400"));
    assert_eq!(
        ranges(&vault),
        vec![
            range(0, 0, "0"),
            range(-65180, -62770, "41810185537"),
            range(-63970, -63370, "333703557"),
        ]
    );
    assert_eq!(pair((vault.idle0, vault.idle1)), both("0", "0"));
    assert!(vault.pending_lev_amm_mode.is_none());
    let (fee, fired) = vault.run_lev_amm_step(&mut pool, &terms, two(), Some(n("3011671716152457323088108482")));
    assert_eq!((fee, fired), (n("1800624"), true));
    assert_eq!(vault.virtual_debt, n("63601248560"));
    assert_eq!(
        ranges(&vault),
        vec![
            range(0, 0, "0"),
            range(-65180, -62770, "41810185537"),
            range(-63970, -63370, "333703557"),
        ]
    );
    assert_eq!(pair((vault.idle0, vault.idle1)), both("3502222519", "0"));
    assert!(vault.pending_lev_amm_mode.is_none());
    let (fee, fired) = vault.run_lev_amm_step(&mut pool, &terms, two(), Some(n("3569718755024170436499690729")));
    assert_eq!((fee, fired), (n("12081017"), true));
    assert_eq!(vault.virtual_debt, n("39439212721"));
    assert_eq!(
        ranges(&vault),
        vec![
            range(0, 0, "0"),
            range(-65180, -62770, "31843964111"),
            range(-63970, -63370, "0"),
        ]
    );
    assert_eq!(pair((vault.idle0, vault.idle1)), both("3514303538", "1"));
    assert!(vault.pending_lev_amm_mode.is_none());
    let capped = LevAmmConfig {
        enabled: true,
        swap_fee_ppm: 500,
        max_arb_per_tick_ppm: Some(1000),
    };
    let (fee, fired) = vault.run_lev_amm_step(&mut pool, &capped, two(), Some(n("2922667749160614041748240795")));
    assert_eq!((fee, fired), (n("64213"), true));
    assert_eq!(vault.virtual_debt, n("39567638862"));
    assert_eq!(
        ranges(&vault),
        vec![
            range(0, 0, "0"),
            range(-65180, -62770, "31843964111"),
            range(-63970, -63370, "0"),
        ]
    );
    assert_eq!(pair((vault.idle0, vault.idle1)), both("3611937765", "1"));
    assert!(vault.pending_lev_amm_mode.is_none());
    assert_eq!(vault.lev_amm_fee_revenue, n("13945854"));
}

#[test]
fn ranges_follow_the_price_bitcoin_first() {
    let (mut pool, mut vault) = bitcoin_first();
    vault.deposit(&mut pool, n("100000000"), n("50000000000"));
    assert_eq!(swap(&mut pool, true, "2500000000"), both("2500000000", "-1412173478320"));
    let terms = SlowRecenterConfig {
        enabled: true,
        max_shift_per_step: 2,
        trigger_interval_seconds: 3600,
        only_shift_oor: false,
        redeploy_limit_at_current_tick: false,
    };
    let moved = vault.slow_recenter(
        &mut pool,
        &terms,
        Deviation { below_min: true, emergency: false, shift_speed: 0 },
    );
    assert_eq!(moved, 0);
    assert_eq!(
        ranges(&vault),
        vec![
            range(0, 0, "0"),
            range(62760, 65220, "34702717489"),
            range(64020, 64620, "11909516439"),
        ]
    );
    assert_eq!(pair((vault.idle0, vault.idle1)), both("0", "0"));
    assert_eq!(pair((vault.accumulated_fees0, vault.accumulated_fees1)), both("0", "0"));
    let moved = vault.slow_recenter(
        &mut pool,
        &terms,
        Deviation { below_min: false, emergency: false, shift_speed: 2 },
    );
    assert_eq!(moved, 2);
    assert_eq!(
        ranges(&vault),
        vec![
            range(0, 0, "0"),
            range(62640, 65100, "12329734371"),
            range(63900, 64500, "104515364844"),
        ]
    );
    assert_eq!(pair((vault.idle0, vault.idle1)), both("0", "0"));
    assert_eq!(pair((vault.accumulated_fees0, vault.accumulated_fees1)), both("251541", "0"));
    let moved = vault.slow_recenter(
        &mut pool,
        &terms,
        Deviation { below_min: false, emergency: false, shift_speed: 1000 },
    );
    assert_eq!(moved, 17);
    assert_eq!(
        ranges(&vault),
        vec![
            range(0, 0, "0"),
            range(61620, 64080, "1948876328"),
            range(62880, 63480, "140261790983"),
        ]
    );
    assert_eq!(pair((vault.idle0, vault.idle1)), both("0", "0"));
    assert_eq!(pair((vault.accumulated_fees0, vault.accumulated_fees1)), both("251541", "0"));
    let moved = vault.slow_recenter(
        &mut pool,
        &terms,
        Deviation { below_min: false, emergency: true, shift_speed: 0 },
    );
    assert_eq!(moved, 0);
    assert_eq!(
        ranges(&vault),
        vec![
            range(0, 0, "0"),
            range(61620, 64080, "1948876328"),
            range(62880, 63480, "140261790983"),
        ]
    );
    assert_eq!(pair((vault.idle0, vault.idle1)), both("0", "0"));
    assert_eq!(pair((vault.accumulated_fees0, vault.accumulated_fees1)), both("251541", "0"));
    let moved = vault.slow_recenter(
        &mut pool,
        &terms,
        Deviation { below_min: true, emergency: false, shift_speed: 3 },
    );
    assert_eq!(moved, 0);
    assert_eq!(
        ranges(&vault),
        vec![
            range(0, 0, "0"),
            range(61620, 64080, "1948876328"),
            range(62880, 63480, "140261790983"),
        ]
    );
    assert_eq!(pair((vault.idle0, vault.idle1)), both("0", "0"));
    assert_eq!(pair((vault.accumulated_fees0, vault.accumulated_fees1)), both("251541", "0"));
}

#[test]
fn ranges_follow_the_price_bitcoin_first_outside_only() {
    let (mut pool, mut vault) = bitcoin_first();
    vault.deposit(&mut pool, n("100000000"), n("50000000000"));
    assert_eq!(swap(&mut pool, true, "2500000000"), both("2500000000", "-1412173478320"));
    let terms = SlowRecenterConfig {
        enabled: true,
        max_shift_per_step: 2,
        trigger_interval_seconds: 3600,
        only_shift_oor: true,
        redeploy_limit_at_current_tick: true,
    };
    let moved = vault.slow_recenter(
        &mut pool,
        &terms,
        Deviation { below_min: true, emergency: false, shift_speed: 0 },
    );
    assert_eq!(moved, 0);
    assert_eq!(
        ranges(&vault),
        vec![
            range(0, 0, "0"),
            range(62760, 65220, "34702717489"),
            range(64020, 64620, "11909516439"),
        ]
    );
    assert_eq!(pair((vault.idle0, vault.idle1)), both("0", "0"));
    assert_eq!(pair((vault.accumulated_fees0, vault.accumulated_fees1)), both("0", "0"));
    let moved = vault.slow_recenter(
        &mut pool,
        &terms,
        Deviation { below_min: false, emergency: false, shift_speed: 2 },
    );
    assert_eq!(moved, 2);
    assert_eq!(
        ranges(&vault),
        vec![
            range(0, 0, "0"),
            range(62760, 65220, "34702717489"),
            range(62880, 63480, "11249690657"),
        ]
    );
    assert_eq!(pair((vault.idle0, vault.idle1)), both("0", "0"));
    assert_eq!(pair((vault.accumulated_fees0, vault.accumulated_fees1)), both("0", "0"));
    let moved = vault.slow_recenter(
        &mut pool,
        &terms,
        Deviation { below_min: false, emergency: false, shift_speed: 1000 },
    );
    assert_eq!(moved, 19);
    assert_eq!(
        ranges(&vault),
        vec![
            range(0, 0, "0"),
            range(62760, 65220, "34702717489"),
            range(62880, 63480, "11249690657"),
        ]
    );
    assert_eq!(pair((vault.idle0, vault.idle1)), both("0", "0"));
    assert_eq!(pair((vault.accumulated_fees0, vault.accumulated_fees1)), both("0", "0"));
    let moved = vault.slow_recenter(
        &mut pool,
        &terms,
        Deviation { below_min: false, emergency: true, shift_speed: 0 },
    );
    assert_eq!(moved, 19);
    assert_eq!(
        ranges(&vault),
        vec![
            range(0, 0, "0"),
            range(61620, 64080, "1948876328"),
            range(62880, 63480, "140261790983"),
        ]
    );
    assert_eq!(pair((vault.idle0, vault.idle1)), both("0", "0"));
    assert_eq!(pair((vault.accumulated_fees0, vault.accumulated_fees1)), both("0", "0"));
    let moved = vault.slow_recenter(
        &mut pool,
        &terms,
        Deviation { below_min: true, emergency: false, shift_speed: 3 },
    );
    assert_eq!(moved, 0);
    assert_eq!(
        ranges(&vault),
        vec![
            range(0, 0, "0"),
            range(61620, 64080, "1948876328"),
            range(62880, 63480, "140261790983"),
        ]
    );
    assert_eq!(pair((vault.idle0, vault.idle1)), both("0", "0"));
    assert_eq!(pair((vault.accumulated_fees0, vault.accumulated_fees1)), both("0", "0"));
}

#[test]
fn ranges_follow_the_price_bitcoin_second() {
    let (mut pool, mut vault) = bitcoin_second();
    vault.deposit(&mut pool, n("50000000000"), n("100000000"));
    assert_eq!(swap(&mut pool, false, "2500000000"), both("-1415538149612", "2500000000"));
    let terms = SlowRecenterConfig {
        enabled: true,
        max_shift_per_step: 2,
        trigger_interval_seconds: 3600,
        only_shift_oor: false,
        redeploy_limit_at_current_tick: false,
    };
    let moved = vault.slow_recenter(
        &mut pool,
        &terms,
        Deviation { below_min: true, emergency: false, shift_speed: 0 },
    );
    assert_eq!(moved, 0);
    assert_eq!(
        ranges(&vault),
        vec![
            range(0, 0, "0"),
            range(-65180, -62770, "34982648477"),
            range(-64580, -63980, "13540004519"),
        ]
    );
    assert_eq!(pair((vault.idle0, vault.idle1)), both("1", "0"));
    assert_eq!(pair((vault.accumulated_fees0, vault.accumulated_fees1)), both("0", "0"));
    let moved = vault.slow_recenter(
        &mut pool,
        &terms,
        Deviation { below_min: false, emergency: false, shift_speed: 2 },
    );
    assert_eq!(moved, 2);
    assert_eq!(
        ranges(&vault),
        vec![
            range(0, 0, "0"),
            range(-65160, -62750, "25454648903"),
            range(-64560, -63960, "52303065743"),
        ]
    );
    assert_eq!(pair((vault.idle0, vault.idle1)), both("0", "0"));
    assert_eq!(pair((vault.accumulated_fees0, vault.accumulated_fees1)), both("0", "42250"));
    let moved = vault.slow_recenter(
        &mut pool,
        &terms,
        Deviation { below_min: false, emergency: false, shift_speed: 1000 },
    );
    assert_eq!(moved, 113);
    assert_eq!(
        ranges(&vault),
        vec![
            range(0, 0, "0"),
            range(-64030, -61620, "1595459537"),
            range(-63430, -62830, "141270382729"),
        ]
    );
    assert_eq!(pair((vault.idle0, vault.idle1)), both("0", "0"));
    assert_eq!(pair((vault.accumulated_fees0, vault.accumulated_fees1)), both("0", "42250"));
    let moved = vault.slow_recenter(
        &mut pool,
        &terms,
        Deviation { below_min: false, emergency: true, shift_speed: 0 },
    );
    assert_eq!(moved, 0);
    assert_eq!(
        ranges(&vault),
        vec![
            range(0, 0, "0"),
            range(-64030, -61620, "1595459537"),
            range(-63430, -62830, "141270382729"),
        ]
    );
    assert_eq!(pair((vault.idle0, vault.idle1)), both("0", "0"));
    assert_eq!(pair((vault.accumulated_fees0, vault.accumulated_fees1)), both("0", "42250"));
    let moved = vault.slow_recenter(
        &mut pool,
        &terms,
        Deviation { below_min: true, emergency: false, shift_speed: 3 },
    );
    assert_eq!(moved, 0);
    assert_eq!(
        ranges(&vault),
        vec![
            range(0, 0, "0"),
            range(-64030, -61620, "1595459537"),
            range(-63430, -62830, "141270382729"),
        ]
    );
    assert_eq!(pair((vault.idle0, vault.idle1)), both("0", "0"));
    assert_eq!(pair((vault.accumulated_fees0, vault.accumulated_fees1)), both("0", "42250"));
}

#[test]
fn ranges_follow_the_price_bitcoin_second_outside_only() {
    let (mut pool, mut vault) = bitcoin_second();
    vault.deposit(&mut pool, n("50000000000"), n("100000000"));
    assert_eq!(swap(&mut pool, false, "2500000000"), both("-1415538149612", "2500000000"));
    let terms = SlowRecenterConfig {
        enabled: true,
        max_shift_per_step: 2,
        trigger_interval_seconds: 3600,
        only_shift_oor: true,
        redeploy_limit_at_current_tick: true,
    };
    let moved = vault.slow_recenter(
        &mut pool,
        &terms,
        Deviation { below_min: true, emergency: false, shift_speed: 0 },
    );
    assert_eq!(moved, 0);
    assert_eq!(
        ranges(&vault),
        vec![
            range(0, 0, "0"),
            range(-65180, -62770, "34982648477"),
            range(-64580, -63980, "13540004519"),
        ]
    );
    assert_eq!(pair((vault.idle0, vault.idle1)), both("1", "0"));
    assert_eq!(pair((vault.accumulated_fees0, vault.accumulated_fees1)), both("0", "0"));
    let moved = vault.slow_recenter(
        &mut pool,
        &terms,
        Deviation { below_min: false, emergency: false, shift_speed: 2 },
    );
    assert_eq!(moved, 2);
    assert_eq!(
        ranges(&vault),
        vec![
            range(0, 0, "0"),
            range(-65180, -62770, "34982648493"),
            range(-63430, -62830, "12783450629"),
        ]
    );
    assert_eq!(pair((vault.idle0, vault.idle1)), both("0", "0"));
    assert_eq!(pair((vault.accumulated_fees0, vault.accumulated_fees1)), both("0", "0"));
    let moved = vault.slow_recenter(
        &mut pool,
        &terms,
        Deviation { below_min: false, emergency: false, shift_speed: 1000 },
    );
    assert_eq!(moved, 115);
    assert_eq!(
        ranges(&vault),
        vec![
            range(0, 0, "0"),
            range(-65180, -62770, "34982648493"),
            range(-63430, -62830, "12783450629"),
        ]
    );
    assert_eq!(pair((vault.idle0, vault.idle1)), both("0", "0"));
    assert_eq!(pair((vault.accumulated_fees0, vault.accumulated_fees1)), both("0", "0"));
    let moved = vault.slow_recenter(
        &mut pool,
        &terms,
        Deviation { below_min: false, emergency: true, shift_speed: 0 },
    );
    assert_eq!(moved, 115);
    assert_eq!(
        ranges(&vault),
        vec![
            range(0, 0, "0"),
            range(-64030, -61620, "1595459537"),
            range(-63430, -62830, "141270381946"),
        ]
    );
    assert_eq!(pair((vault.idle0, vault.idle1)), both("0", "0"));
    assert_eq!(pair((vault.accumulated_fees0, vault.accumulated_fees1)), both("0", "0"));
    let moved = vault.slow_recenter(
        &mut pool,
        &terms,
        Deviation { below_min: true, emergency: false, shift_speed: 3 },
    );
    assert_eq!(moved, 0);
    assert_eq!(
        ranges(&vault),
        vec![
            range(0, 0, "0"),
            range(-64030, -61620, "1595459537"),
            range(-63430, -62830, "141270381946"),
        ]
    );
    assert_eq!(pair((vault.idle0, vault.idle1)), both("0", "0"));
    assert_eq!(pair((vault.accumulated_fees0, vault.accumulated_fees1)), both("0", "0"));
}

#[test]
fn arbitrage_closes_the_gap_bitcoin_first() {
    let (mut pool, mut vault) = bitcoin_first();
    vault.deposit(&mut pool, n("100000000"), n("50000000000"));
    let found = detect_arb(pool.sqrt_price_x96(), n("1962886422806847582908628315895"), 3000);
    assert_eq!(found.is_arbitrable, true);
    assert_eq!(found.deviation_bps, 230);
    assert_eq!(found.zero_for_one, false);
    assert_eq!(found.target_sqrt_price_x96, n("1959939881606817048145547251884"));
    let done = execute_arb_close_gap(&mut pool, &found, true);
    assert_eq!(done.amount0.to_dec_string(), "-418597991");
    assert_eq!(done.amount1.to_dec_string(), "254419100517");
    assert_eq!(done.profit_stable.to_dec_string(), "1748070735");
    assert_eq!(pool.sqrt_price_x96(), n("1959939881606817048145547251884"));
    let found = detect_arb(pool.sqrt_price_x96(), n("1885924316881725756568688266789"), 3000);
    assert_eq!(found.is_arbitrable, true);
    assert_eq!(found.deviation_bps, 741);
    assert_eq!(found.zero_for_one, true);
    assert_eq!(found.target_sqrt_price_x96, n("1888759584305987612337130655213"));
    let done = execute_arb_close_gap(&mut pool, &found, true);
    assert_eq!(done.amount0.to_dec_string(), "1584664858");
    assert_eq!(done.amount1.to_dec_string(), "-931799901926");
    assert_eq!(done.profit_stable.to_dec_string(), "31200567290");
    assert_eq!(pool.sqrt_price_x96(), n("1888759584305987612337130655213"));
    let found = detect_arb(pool.sqrt_price_x96(), n("1886867467651458493769383209388"), 3000);
    assert_eq!(found.is_arbitrable, false);
    assert_eq!(found.deviation_bps, 20);
    assert_eq!(found.zero_for_one, true);
    assert_eq!(found.target_sqrt_price_x96, n("1888759584305987612337130655213"));
    let done = execute_arb_close_gap(&mut pool, &found, true);
    assert_eq!(done.amount0.to_dec_string(), "0");
    assert_eq!(done.amount1.to_dec_string(), "0");
    assert_eq!(done.profit_stable.to_dec_string(), "0");
    assert_eq!(pool.sqrt_price_x96(), n("1888759584305987612337130655213"));
}

#[test]
fn arbitrage_closes_the_gap_bitcoin_second() {
    let (mut pool, mut vault) = bitcoin_second();
    vault.deposit(&mut pool, n("50000000000"), n("100000000"));
    let found = detect_arb(pool.sqrt_price_x96(), n("3197893501352299904935852641"), 500);
    assert_eq!(found.is_arbitrable, true);
    assert_eq!(found.deviation_bps, 224);
    assert_eq!(found.zero_for_one, true);
    assert_eq!(found.target_sqrt_price_x96, n("3198693274655125192340554777"));
    let done = execute_arb_close_gap(&mut pool, &found, false);
    assert_eq!(done.amount0.to_dec_string(), "287333048705");
    assert_eq!(done.amount1.to_dec_string(), "-473351473");
    assert_eq!(done.profit_stable.to_dec_string(), "3067682921");
    assert_eq!(pool.sqrt_price_x96(), n("3198693274655125192340554777"));
    let found = detect_arb(pool.sqrt_price_x96(), n("3328395354573682081770561437"), 500);
    assert_eq!(found.is_arbitrable, true);
    assert_eq!(found.deviation_bps, 827);
    assert_eq!(found.zero_for_one, false);
    assert_eq!(found.target_sqrt_price_x96, n("3327563151696671925083397205"));
    let done = execute_arb_close_gap(&mut pool, &found, false);
    assert_eq!(done.amount0.to_dec_string(), "-996393488729");
    assert_eq!(done.amount1.to_dec_string(), "1690221126");
    assert_eq!(done.profit_stable.to_dec_string(), "38206916638");
    assert_eq!(pool.sqrt_price_x96(), n("3327563151696671925083397205"));
    let found = detect_arb(pool.sqrt_price_x96(), n("3327563401330495832300678236"), 500);
    assert_eq!(found.is_arbitrable, false);
    assert_eq!(found.deviation_bps, 0);
    assert_eq!(found.zero_for_one, false);
    assert_eq!(found.target_sqrt_price_x96, n("3327563151696671925083397205"));
    let done = execute_arb_close_gap(&mut pool, &found, false);
    assert_eq!(done.amount0.to_dec_string(), "0");
    assert_eq!(done.amount1.to_dec_string(), "0");
    assert_eq!(done.profit_stable.to_dec_string(), "0");
    assert_eq!(pool.sqrt_price_x96(), n("3327563151696671925083397205"));
}

#[test]
fn arbitrage_without_a_price() {
    let some = n("1940685714182491852533977682922");
    assert!(try_detect_arb(U256::ZERO(), some, 3000).is_none());
    let found = detect_arb(U256::ZERO(), U256::ZERO(), 3000);
    assert!(!found.is_arbitrable);
    assert_eq!(found.deviation_bps, 0);
    assert!(found.zero_for_one);
    assert!(try_detect_arb(some, U256::ONE(), 1_000_000).is_none());
}
