//! Liquidity and swaps on a pool, and what a pool refuses.
use dlv_sim::core_pool::CorePool;
use dlv_sim::engine::Engine;
use dlv_sim::full_math::{mul_div, mul_div_rounding_up, try_mul_div, try_mul_div_rounding_up};
use dlv_sim::liquidity_math::try_add_delta;
use dlv_sim::position::Position;
use dlv_sim::position_manager::PositionManager;
use dlv_sim::sqrt_price_math::{
    get_amount0_delta, get_amount0_delta_unsigned, get_amount1_delta_unsigned,
    get_next_sqrt_price_from_input, get_next_sqrt_price_from_output,
    try_get_next_sqrt_price_from_input, try_get_next_sqrt_price_from_output,
};
use dlv_sim::tick::Tick;
use dlv_sim::tick_manager::TickManager;
use dlv_sim::tick_math::get_sqrt_ratio_at_tick;
use dlv_sim::types::{FeeAmount, I256, MAX_UINT128, MAX_UINT256, U256};

fn amount(s: &str) -> I256 {
    I256(U256::from_dec_str(s))
}

fn text(p: (I256, I256)) -> (String, String) {
    (p.0.to_dec_string(), p.1.to_dec_string())
}

fn plain(p: (U256, U256)) -> (String, String) {
    (p.0.to_dec_string(), p.1.to_dec_string())
}

fn both(a: &str, b: &str) -> (String, String) {
    (a.to_string(), b.to_string())
}

fn blank_pool(fee: u32) -> CorePool {
    CorePool::new(
        "token0".to_string(),
        "token1".to_string(),
        fee,
        60,
        U256::ZERO(),
        U256::ZERO(),
        U256::ZERO(),
        U256::ZERO(),
        0,
        U256::ZERO(),
        U256::ZERO(),
        TickManager::new(),
        PositionManager::new(),
    )
}

fn even_pool() -> CorePool {
    let mut pool = blank_pool(3000);
    pool.initialize(U256::ONE() << 96);
    pool
}

/// The active liquidity is the sum of what all ticks up to the current one bring in.
fn net_up_to_current(pool: &CorePool) -> I256 {
    let mut sum = I256::ZERO();
    for t in pool.tick_manager().ticks().iter() {
        if t.tick_index <= pool.tick_current() {
            sum = sum + t.liquidity_net;
        }
    }
    sum
}

#[test]
fn swaps_cross_ticks_and_leave_fees() {
    let mut pool = even_pool();
    assert_eq!(text(pool.mint("0xA", -600, 600, amount("1000000000000"))), both("29553010880", "29553010880"));
    assert_eq!(text(pool.mint("0xB", -120, 60, amount("5000000000000"))), both("14976774780", "29908688803"));
    assert_eq!(pool.sqrt_price_x96().to_dec_string(), "79228162514264337593543950336");
    assert_eq!(pool.tick_current(), 0);
    assert_eq!(pool.liquidity().to_dec_string(), "6000000000000");
    assert_eq!(pool.fee_growth_global_0_x128().to_dec_string(), "0");
    assert_eq!(pool.fee_growth_global_1_x128().to_dec_string(), "0");
    let seen = pool.query_swap(true, amount("50000000000"), None);
    assert_eq!(text(pool.swap(true, amount("50000000000"), None)), both("50000000000", "-49287074802"));
    assert_eq!(text((seen.amount0, seen.amount1)), both("50000000000", "-49287074802"));
    assert_eq!(seen.sqrt_price_x96, pool.sqrt_price_x96());
    assert_eq!(pool.sqrt_price_x96().to_dec_string(), "77692848598971041803475571806");
    assert_eq!(pool.tick_current(), -392);
    assert_eq!(pool.liquidity().to_dec_string(), "1000000000000");
    assert_eq!(pool.fee_growth_global_0_x128().to_dec_string(), "20233997197316887884975284477523676");
    assert_eq!(pool.fee_growth_global_1_x128().to_dec_string(), "0");
    let seen = pool.query_swap(false, amount("30000000000"), None);
    assert_eq!(text(pool.swap(false, amount("30000000000"), None)), both("-30410143936", "30000000000"));
    assert_eq!(text((seen.amount0, seen.amount1)), both("-30410143936", "30000000000"));
    assert_eq!(seen.sqrt_price_x96, pool.sqrt_price_x96());
    assert_eq!(pool.sqrt_price_x96().to_dec_string(), "78972294175659843912488713733");
    assert_eq!(pool.tick_current(), -65);
    assert_eq!(pool.liquidity().to_dec_string(), "6000000000000");
    assert_eq!(pool.fee_growth_global_0_x128().to_dec_string(), "20233997197316887884975284477523676");
    assert_eq!(pool.fee_growth_global_1_x128().to_dec_string(), "16535136375945459810589989079105541");
    let seen = pool.query_swap(false, amount("20000000000").negate(), None);
    assert_eq!(text(pool.swap(false, amount("20000000000").negate(), None)), both("-20000000000", "19997262831"));
    assert_eq!(text((seen.amount0, seen.amount1)), both("-20000000000", "19997262831"));
    assert_eq!(seen.sqrt_price_x96, pool.sqrt_price_x96());
    assert_eq!(pool.sqrt_price_x96().to_dec_string(), "79235559734014754541708122885");
    assert_eq!(pool.tick_current(), 1);
    assert_eq!(pool.liquidity().to_dec_string(), "6000000000000");
    assert_eq!(pool.fee_growth_global_0_x128().to_dec_string(), "20233997197316887884975284477523676");
    assert_eq!(pool.fee_growth_global_1_x128().to_dec_string(), "19937494368735713140936485525272952");
    let seen = pool.query_swap(true, amount("10000000000").negate(), None);
    assert_eq!(text(pool.swap(true, amount("10000000000").negate(), None)), both("10044957630", "-10000000000"));
    assert_eq!(text((seen.amount0, seen.amount1)), both("10044957630", "-10000000000"));
    assert_eq!(seen.sqrt_price_x96, pool.sqrt_price_x96());
    assert_eq!(pool.sqrt_price_x96().to_dec_string(), "79103512796478178227259533188");
    assert_eq!(pool.tick_current(), -32);
    assert_eq!(pool.liquidity().to_dec_string(), "6000000000000");
    assert_eq!(pool.fee_growth_global_0_x128().to_dec_string(), "21943058239247595978012350712482974");
    assert_eq!(pool.fee_growth_global_1_x128().to_dec_string(), "19937494368735713140936485525272952");
    let seen = pool.query_swap(true, amount("1000000"), None);
    assert_eq!(text(pool.swap(true, amount("1000000"), None)), both("1000000", "-993865"));
    assert_eq!(text((seen.amount0, seen.amount1)), both("1000000", "-993865"));
    assert_eq!(seen.sqrt_price_x96, pool.sqrt_price_x96());
    assert_eq!(pool.sqrt_price_x96().to_dec_string(), "79103499672793353415178891910");
    assert_eq!(pool.tick_current(), -32);
    assert_eq!(pool.liquidity().to_dec_string(), "6000000000000");
    assert_eq!(pool.fee_growth_global_0_x128().to_dec_string(), "21943228380431056447244082399786689");
    assert_eq!(pool.fee_growth_global_1_x128().to_dec_string(), "19937494368735713140936485525272952");
    assert_eq!(I256(pool.liquidity()), net_up_to_current(&pool));

    pool.burn("0xA", -600, 600, I256::ZERO());
    let held = pool.get_position("0xA", -600, 600);
    assert_eq!(plain((held.tokens_owed_0, held.tokens_owed_1)), both("64485352", "58591029"));
    pool.burn("0xB", -120, 60, I256::ZERO());
    let held = pool.get_position("0xB", -120, 60);
    assert_eq!(plain((held.tokens_owed_0, held.tokens_owed_1)), both("115652522", "91400759"));
    let some = pool.collect("0xA", -600, 600, U256::from_u64(1000), MAX_UINT128());
    assert_eq!(plain(some), both("1000", "58591029"));
    assert_eq!(text(pool.burn("0xB", -120, 60, amount("5000000000000"))), both("22856504626", "22041357444"));
    let all = pool.collect("0xB", -120, 60, MAX_UINT128(), MAX_UINT128());
    assert_eq!(plain(all), both("22972157148", "22132758203"));
    assert_eq!(pool.position_manager().position_keys(), vec!["0xA_-600_600".to_string()]);
    assert_eq!(pool.tick_manager().tick_indices(), vec![-600, 600]);
    assert_eq!(plain(pool.collect("0xB", -120, 60, MAX_UINT128(), MAX_UINT128())), both("0", "0"));
    assert_eq!(I256(pool.liquidity()), net_up_to_current(&pool));
}

#[test]
fn burning_gives_back_what_minting_took() {
    for (lower, upper) in [(-600, 600), (60, 1200), (-1200, -60)] {
        let mut pool = even_pool();
        pool.mint("0xA", -6000, 6000, amount("1000000"));
        let before = pool.clone();
        let (in0, in1) = pool.mint("0xB", lower, upper, amount("123456789"));
        let (out0, out1) = pool.burn("0xB", lower, upper, amount("123456789"));
        for (paid, got) in [(in0, out0), (in1, out1)] {
            assert!(got == paid || got + I256::ONE() == paid);
        }
        assert_eq!(pool.sqrt_price_x96(), before.sqrt_price_x96());
        assert_eq!(pool.tick_current(), before.tick_current());
        assert_eq!(pool.liquidity(), before.liquidity());
        assert_eq!(pool.tick_manager().tick_indices(), before.tick_manager().tick_indices());
    }
}

#[test]
fn swaps_stop_at_their_limit() {
    let mut pool = even_pool();
    pool.mint("0xA", -600, 600, amount("1000000000000"));
    let limit = get_sqrt_ratio_at_tick(-300);
    let (a0, a1) = pool.swap(true, amount("1000000000000000"), Some(limit));
    assert_eq!(pool.sqrt_price_x96(), limit);
    assert_eq!(pool.tick_current(), -300);
    assert!(a0.is_positive() && a0 < amount("1000000000000000"));
    assert!(a1.is_negative());
}

#[test]
fn pools_refuse_what_is_not_possible() {
    let mut pool = blank_pool(3000);
    assert!(!pool.try_initialize(U256::ONE()));
    assert!(pool.try_initialize(U256::ONE() << 96));
    assert!(!pool.try_initialize(U256::ONE() << 96));
    assert!(pool.try_mint("0xA", -600, 600, I256::ZERO()).is_none());
    assert!(pool.try_mint("0xA", 600, -600, amount("5")).is_none());
    assert!(pool.try_mint("0xA", -887280, 600, amount("5")).is_none());
    assert!(pool.try_mint("0xA", -600, 887280, amount("5")).is_none());
    assert!(pool.try_mint("0xA", -600, 600, I256(MAX_UINT128())).is_none());
    assert!(pool.tick_manager().is_empty());
    pool.mint("0xA", -600, 600, amount("5000000"));
    assert!(pool.try_burn("0xA", -600, 600, amount("5000001")).is_none());
    assert!(pool.try_burn("0xB", -600, 600, amount("1")).is_none());
    assert!(pool.try_collect("0xA", 600, -600, MAX_UINT128(), MAX_UINT128()).is_none());
    assert_eq!(pool.get_position("0xA", -600, 600).liquidity, U256::from_u64(5000000));
    let price = pool.sqrt_price_x96();
    assert!(pool.try_swap(true, amount("5"), Some(price)).is_none());
    assert!(pool.try_swap(false, amount("5"), Some(price)).is_none());
    assert!(pool.try_swap(true, amount("5"), Some(U256::ONE())).is_none());
    assert!(pool.try_query_swap(false, amount("5"), Some(MAX_UINT256())).is_none());

    let mut odd = blank_pool(1234);
    odd.initialize(U256::ONE() << 96);
    odd.mint("0xA", -600, 600, amount("5000000"));
    assert!(odd.try_swap(true, amount("5"), None).is_none());
}

#[test]
fn positions_and_ticks_change_apart() {
    let mut pool = even_pool();
    let full = pool.clone().mint("0xA", -600, 600, amount("1000000"));
    assert_eq!(pool.phantom_mint("0xA", -600, 600, amount("1000000")), full);
    assert!(pool.liquidity().is_zero());
    assert!(pool.tick_manager().is_empty());
    assert_eq!(pool.get_position("0xA", -600, 600).liquidity, U256::from_u64(1000000));
    let back = pool.phantom_burn("0xA", -600, 600, amount("400000"));
    assert_eq!(text(back), both("11821", "11821"));
    assert_eq!(pool.get_position("0xA", -600, 600).tokens_owed_0, U256::from_u64(11821));
    assert!(pool.try_phantom_burn("0xA", -600, 600, amount("600001")).is_none());

    let mut bare = even_pool();
    assert_eq!(bare.rapid_mint(-600, 600, amount("1000000")), full);
    assert_eq!(bare.liquidity(), U256::from_u64(1000000));
    assert_eq!(bare.tick_manager().tick_indices(), vec![-600, 600]);
    assert!(bare.position_manager().position_keys().is_empty());
    assert_eq!(text(bare.rapid_burn(-600, 600, amount("1000000"))), both("29553", "29553"));
    assert!(bare.tick_manager().is_empty());
}

#[test]
fn an_engine_acts_on_its_pool() {
    let mut pool = even_pool();
    let mut engine = Engine::new(&mut pool);
    let paid = engine.mint("0xA", -600, 600, amount("1000000"));
    assert_eq!(text((paid.amount0, paid.amount1)), both("29554", "29554"));
    let traded = engine.swap(true, amount("1000"), None);
    assert_eq!(text((traded.amount0, traded.amount1)), both("1000", "-996"));
    let back = engine.burn("0xA", -600, 600, amount("1000000"));
    let got = engine.collect("0xA", -600, 600, MAX_UINT128(), MAX_UINT128());
    assert_eq!(got.amount0, back.amount0.as_u256() + U256::from_u64(2));
    assert_eq!(got.amount1, back.amount1.as_u256());
    assert!(engine.pool().liquidity().is_zero());
}

#[test]
fn ticks_are_found_by_words() {
    let mut ticks = TickManager::new();
    assert_eq!(ticks.get_next_initialized_tick(0, 60, true), (0, false));
    assert_eq!(ticks.get_next_initialized_tick(0, 60, false), (15300, false));
    for i in [-60, 120, 15360] {
        ticks.set(Tick::new(i));
    }
    assert_eq!(ticks.tick_indices(), vec![-60, 120, 15360]);
    assert_eq!(ticks.get_next_initialized_tick(0, 60, true), (0, false));
    assert_eq!(ticks.get_next_initialized_tick(-1, 60, true), (-60, true));
    assert_eq!(ticks.get_next_initialized_tick(-61, 60, true), (-15360, false));
    assert_eq!(ticks.get_next_initialized_tick(0, 60, false), (120, true));
    assert_eq!(ticks.get_next_initialized_tick(120, 60, false), (15300, false));
    assert_eq!(ticks.get_next_initialized_tick(15300, 60, false), (15360, true));
    assert_eq!(ticks.get_next_initialized_tick(887272, 8_386_000, true), (15360, true));
    ticks.clear(120);
    assert_eq!(ticks.tick_indices(), vec![-60, 15360]);
    assert!(!ticks.get_tick_readonly(120).initialized());
}

#[test]
fn crossing_a_tick_twice_undoes_it() {
    let mut t = Tick::new(60);
    t.fee_growth_outside_0_x128 = U256::from_u64(40);
    let (g0, g1) = (U256::from_u64(100), U256::from_u64(7));
    t.cross(g0, g1);
    assert_eq!(t.fee_growth_outside_0_x128, U256::from_u64(60));
    assert_eq!(t.fee_growth_outside_1_x128, g1);
    t.cross(g0, g1);
    assert_eq!(t.fee_growth_outside_0_x128, U256::from_u64(40));
    assert!(t.fee_growth_outside_1_x128.is_zero());
    assert!(t.try_update(I256::NEGATIVE_ONE(), 0, g0, g1, false, MAX_UINT128()).is_none());
    assert_eq!(t.try_update(amount("9"), 60, g0, g1, true, MAX_UINT128()), Some(true));
    assert_eq!(t.liquidity_net.to_dec_string(), "-9");
    assert!(t.try_update(amount("9"), 60, g0, g1, true, U256::from_u64(17)).is_none());
}

#[test]
fn positions_earn_by_growth() {
    let mut p = Position::new();
    assert!(p.is_empty());
    p.update(amount("1000"), U256::ZERO(), U256::ZERO());
    p.update(I256::ZERO(), U256::ONE() << 127, U256::ONE() << 128);
    assert_eq!((p.tokens_owed_0, p.tokens_owed_1), (U256::from_u64(500), U256::from_u64(1000)));
    assert!(!p.try_update(amount("1001").negate(), U256::ZERO(), U256::ZERO()));
    assert_eq!(PositionManager::get_key("0xA", -60, 120), "0xA_-60_120");
}

#[test]
fn roundings_are_one_apart() {
    let (a, b) = (get_sqrt_ratio_at_tick(-77), get_sqrt_ratio_at_tick(1234));
    for l in [0u64, 1, 999_999_999, 1_000_000_000] {
        let l = U256::from_u64(l);
        let (down, up) =
            (get_amount0_delta_unsigned(a, b, l, false), get_amount0_delta_unsigned(a, b, l, true));
        assert!(up == down || up == down + U256::ONE());
        let (down, up) =
            (get_amount1_delta_unsigned(a, b, l, false), get_amount1_delta_unsigned(a, b, l, true));
        assert!(up == down || up == down + U256::ONE());
    }
    let (x, y) = (U256::from_u64(10), U256::from_u64(7));
    assert_eq!(mul_div(x, y, U256::from_u64(4)), U256::from_u64(17));
    assert_eq!(mul_div_rounding_up(x, y, U256::from_u64(4)), U256::from_u64(18));
    assert_eq!(mul_div_rounding_up(x, y, U256::from_u64(5)), U256::from_u64(14));
    assert_eq!(mul_div(MAX_UINT256(), MAX_UINT256(), MAX_UINT256()), MAX_UINT256());
    assert!(try_mul_div(x, y, U256::ZERO()).is_none());
    assert!(try_mul_div_rounding_up(x, y, U256::ZERO()).is_none());
}

#[test]
fn sums_and_prices_out_of_range() {
    assert!(try_add_delta(MAX_UINT128(), I256::ONE()).is_none());
    assert!(try_add_delta(U256::ZERO(), I256::NEGATIVE_ONE()).is_none());
    assert_eq!(try_add_delta(U256::ONE(), I256::NEGATIVE_ONE()), Some(U256::ZERO()));
    let one = U256::ONE() << 96;
    assert!(try_get_next_sqrt_price_from_input(one, U256::ZERO(), U256::ONE(), true).is_none());
    assert!(try_get_next_sqrt_price_from_output(one, U256::ONE(), U256::ONE(), true).is_none());
    assert!(try_get_next_sqrt_price_from_output(one, U256::ONE(), U256::ONE(), false).is_none());
    assert_eq!(
        try_get_next_sqrt_price_from_input(one, U256::ONE(), U256::ONE(), false),
        Some(one + one)
    );
    assert_eq!(FeeAmount::try_from_u32(1234), None);
    assert_eq!(FeeAmount::from_u32(500).tick_spacing(), 10);
}

#[test]
fn signed_integers_keep_their_sign() {
    let r = I256::from_i64(-1);
    assert_eq!(r, I256::NEGATIVE_ONE());
    assert!(r.is_negative());
    assert_eq!(r.to_dec_string(), "-1");
    assert_eq!(I256::from_i64(i64::MIN).to_dec_string(), "-9223372036854775808");
    assert_eq!(I256::from_i64(7).to_dec_string(), "7");
    assert_eq!(I256::from_i64(-5), I256::from_i32(-5));
    assert_eq!((I256::from_i64(-3) + I256::from_i64(10)).to_dec_string(), "7");
}

#[test]
fn wide_integers_keep_their_bits() {
    assert_eq!(I256::from_i128(i128::MIN).to_i128(), i128::MIN);
    assert_eq!(I256::from_i128(5).to_dec_string(), "5");
    assert_eq!(I256::from_i128(-1).to_dec_string(), "340282366920938463463374607431768211455");
    assert_eq!(I256::from_i128(-1).to_i128(), -1);
}

#[test]
fn a_burn_credits_the_position_with_what_it_gives() {
    let mut pool = even_pool();
    pool.mint("a", -600, 600, amount("5000000000"));
    pool.mint("b", -600, 1200, amount("777777777"));
    let liquidity = pool.liquidity();
    let (m0, m1) = pool.mint("a", -600, 600, amount("123456789"));
    let held = pool.get_position("a", -600, 600);
    let (b0, b1) = pool.burn("a", -600, 600, amount("123456789"));
    let left = pool.get_position("a", -600, 600);
    assert!(b0 == m0 || b0 + I256::ONE() == m0);
    assert!(b1 == m1 || b1 + I256::ONE() == m1);
    assert_eq!(pool.liquidity(), liquidity);
    assert_eq!(left.liquidity, U256::from_u64(5_000_000_000));
    assert_eq!(left.tokens_owed_0, held.tokens_owed_0 + b0.0);
    assert_eq!(left.tokens_owed_1, held.tokens_owed_1 + b1.0);
}

#[test]
fn liquidity_without_a_position_leaves_no_trace() {
    let mut pool = even_pool();
    pool.mint("a", -600, 600, amount("5000000000"));
    let liquidity = pool.liquidity();
    let (m0, m1) = pool.rapid_mint(-120, 180, amount("987654321"));
    assert_eq!(pool.tick_manager().tick_indices(), vec![-600, -120, 180, 600]);
    let (b0, b1) = pool.rapid_burn(-120, 180, amount("987654321"));
    assert!(b0 == m0 || b0 + I256::ONE() == m0);
    assert!(b1 == m1 || b1 + I256::ONE() == m1);
    assert_eq!(pool.liquidity(), liquidity);
    assert_eq!(pool.tick_manager().tick_indices(), vec![-600, 600]);
    assert_eq!(pool.position_manager().position_keys(), vec!["a_-600_600".to_string()]);
}

#[test]
fn amounts_pay_for_moves_of_any_price() {
    let low = U256::from_u64(3);
    let high = (U256::ONE() << 160) - U256::ONE();
    let l = I256::from_i64(1_000_003);
    let up = get_amount0_delta(low, high, l);
    let down = get_amount0_delta(low, high, l.negate());
    assert!(up == down.negate() || up == down.negate() + I256::ONE());
    assert_eq!(get_amount0_delta(high, low, l), up);
    assert_eq!(get_amount0_delta(high, low, l.negate()), down);

    let p = U256::ONE() << 96;
    let liquidity = U256::from_u64(1_000_000_007);
    let input = U256::from_u64(12_345);
    let lower = get_next_sqrt_price_from_input(p, liquidity, input, true);
    assert!(lower < p);
    assert!(get_amount0_delta_unsigned(lower, p, liquidity, true) <= input);
    let upper = get_next_sqrt_price_from_input(p, liquidity, input, false);
    assert!(upper > p);
    assert!(get_amount1_delta_unsigned(p, upper, liquidity, true) <= input);
    assert_eq!(get_next_sqrt_price_from_input(p, liquidity, U256::ZERO(), true), p);
    assert_eq!(get_next_sqrt_price_from_input(p, liquidity, U256::ZERO(), false), p);

    let lower = get_next_sqrt_price_from_output(p, liquidity, input, true);
    assert!(lower < p);
    assert!(get_amount1_delta_unsigned(lower, p, liquidity, false) >= input);
    let upper = get_next_sqrt_price_from_output(p, liquidity, input, false);
    assert!(upper > p);
    assert!(get_amount0_delta_unsigned(p, upper, liquidity, false) >= input);
}

#[test]
fn a_pool_adds_up_after_many_operations() {
    let mut pool = even_pool();
    pool.mint("a", -600, 600, amount("5000000000"));
    pool.mint("b", 0, 1200, amount("3000000000"));
    pool.mint("a", -1800, -600, amount("2000000000"));
    pool.swap(true, amount("400000000"), None);
    assert_eq!(I256(pool.liquidity()), net_up_to_current(&pool));
    pool.burn("a", -600, 600, amount("5000000000"));
    pool.swap(false, amount("100000000"), None);
    pool.collect("a", -600, 600, MAX_UINT256(), MAX_UINT256());
    assert_eq!(I256(pool.liquidity()), net_up_to_current(&pool));
    assert_eq!(pool.tick_manager().tick_indices(), vec![-1800, -600, 0, 1200]);
    assert_eq!(
        pool.position_manager().position_keys(),
        vec!["b_0_1200".to_string(), "a_-1800_-600".to_string()]
    );
    for t in pool.tick_manager().ticks().iter() {
        let (next, found) = pool.tick_manager().get_next_initialized_tick(t.tick_index, 60, true);
        assert_eq!((next, found), (t.tick_index, true));
    }
    let tick = pool.tick_current();
    assert!(get_sqrt_ratio_at_tick(tick) <= pool.sqrt_price_x96());
    assert!(pool.sqrt_price_x96() <= get_sqrt_ratio_at_tick(tick + 1));
}
