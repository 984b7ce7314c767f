use dlv_sim::full_math::{mod256_sub, mul_div, mul_div_rounding_up, sqrt};
use dlv_sim::sqrt_price_math::{get_amount0_delta_unsigned, get_amount1_delta_unsigned};
use dlv_sim::tick_math::{
    get_sqrt_ratio_at_tick, get_tick_at_sqrt_ratio, tick_spacing_to_max_liquidity_per_tick,
};
use dlv_sim::types::{
    max_sqrt_ratio, min_sqrt_ratio, I256, MAX_TICK, MAX_UINT256, MIN_TICK, Q128, Q96, U256,
};

#[test]
fn test_u256_basic_ops() {
    let a = U256::from_u128(100);
    let b = U256::from_u128(200);
    assert_eq!((a + b).lo, 300);
    assert_eq!((b - a).lo, 100);
    assert_eq!((a * b).lo, 20000);
    assert_eq!((b / a).lo, 2);
}

#[test]
fn test_u256_shifts() {
    let one = U256::ONE();
    let result = one << 128;
    assert_eq!(result, Q128());
    assert_eq!((result >> 128), U256::ONE());
}

#[test]
fn test_i256_negation() {
    let one = I256::ONE();
    let neg_one = one.negate();
    assert!(neg_one.is_negative());
    assert_eq!(neg_one.negate(), one);
    assert_eq!((one + neg_one), I256::ZERO());
}

#[test]
fn test_max_sqrt_ratio() {
    let v = max_sqrt_ratio();
    assert_eq!(v.to_dec_string(), "1461446703485210103287273052203988822378723970342");
}

#[test]
fn test_from_dec_str() {
    let v = U256::from_dec_str("1461446703485210103287273052203988822378723970342");
    assert_eq!(v, max_sqrt_ratio());
}

#[test]
fn test_mul_div_basic() {
    let a = U256::from_u128(100);
    let b = U256::from_u128(200);
    let d = U256::from_u128(50);
    assert_eq!(mul_div(a, b, d), U256::from_u128(400));
}

#[test]
fn test_mul_div_rounding_up() {
    let a = U256::from_u128(10);
    let b = U256::from_u128(3);
    let d = U256::from_u128(7);
    assert_eq!(mul_div_rounding_up(a, b, d), U256::from_u128(5));
    assert_eq!(mul_div_rounding_up(a, b, U256::from_u128(6)), U256::from_u128(5));
}

#[test]
fn test_mod256_sub_underflow() {
    let a = U256::from_u128(0);
    let b = U256::from_u128(1);
    let result = mod256_sub(a, b);
    assert_eq!(result, MAX_UINT256());
}

#[test]
fn test_sqrt_basic() {
    assert_eq!(sqrt(U256::from_u128(144)), U256::from_u128(12));
    assert_eq!(sqrt(U256::from_u128(2)), U256::from_u128(1));
    assert_eq!(sqrt(U256::from_u128(0)), U256::ZERO());
}

#[test]
fn test_amount0_delta_tick_215822() {
    let current = U256::from_dec_str("2077921856167377953745809051759");
    let target = U256::from_dec_str("2100035313168839811738972618346");
    let liquidity = U256::from_u128(7608560);

    let numerator1 = liquidity << 96;
    let numerator2 = target - current;
    let intermediate = mul_div(numerator1, numerator2, target);
    let result = intermediate / current;
    assert_eq!(result, U256::from_u128(3054), "amount0 should be 3054");

    let full_result = get_amount0_delta_unsigned(current, target, liquidity, false);
    assert_eq!(full_result, U256::from_u128(3054), "get_amount0_delta_unsigned should be 3054");
}

#[test]
fn test_amount1_delta_tick_215822() {
    let current = U256::from_dec_str("2077921856167377953745809051759");
    let target = U256::from_dec_str("2100035313168839811738972618346");
    let liquidity = U256::from_u128(7608560);

    let result = get_amount1_delta_unsigned(current, target, liquidity, true);
    assert_eq!(result, U256::from_u128(2123634), "amount1 should be 2123634");
}

#[test]
fn test_get_sqrt_ratio_at_tick_zero() {
    let result = get_sqrt_ratio_at_tick(0);
    assert_eq!(result, Q96());
}

#[test]
fn test_get_sqrt_ratio_at_min_tick() {
    let result = get_sqrt_ratio_at_tick(MIN_TICK);
    assert_eq!(result, min_sqrt_ratio());
}

#[test]
fn test_get_sqrt_ratio_at_max_tick() {
    let result = get_sqrt_ratio_at_tick(MAX_TICK);
    assert_eq!(result, max_sqrt_ratio());
}

#[test]
fn test_get_tick_at_sqrt_ratio_q96() {
    let tick = get_tick_at_sqrt_ratio(Q96());
    assert_eq!(tick, 0);
}

#[test]
fn test_tick_spacing_to_max_liquidity_per_tick_60() {
    let result = tick_spacing_to_max_liquidity_per_tick(60);
    assert_eq!(result.to_dec_string(), "11505743598341114571880798222544994");
}
