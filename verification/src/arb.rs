//! Arbitrage between the pool and an outside price.
use crate::arith::{congruent, p128, p192, wrap_signed, wrap_signed_facts};
use crate::core_pool::CorePool;
use crate::full_math::{floor_mul_div, mul_div, sqrt, sqrt_unique};
use crate::pool_model::{swap_amounts, swap_end, swapped, PoolView};
use crate::types::{abs, I256, Q192, U256};
use crate::vault_math::{distance, one_wad, pool_price, price_of, root, wad, wsub};
use vstd::prelude::*;

verus! {

/// Whether an arbitrage pays, how far the prices are apart and where it ends. The
/// deviation counts as negative where the pool's price is the higher one, which is
/// where token 0 goes in.
#[derive(Debug, Clone, Copy)]
pub struct ArbDetection {
    pub is_arbitrable: bool,
    pub deviation_bps: u128,
    pub zero_for_one: bool,
    pub pool_sqrt_price_x96: U256,
    pub target_sqrt_price_x96: U256,
}

/// What an arbitrage exchanged and what it gained in stable units.
#[derive(Debug, Clone, Copy)]
pub struct ArbResult {
    pub amount0: I256,
    pub amount1: I256,
    pub profit_stable: I256,
    pub zero_for_one: bool,
}

/// A detection by its views.
pub ghost struct DetectionView {
    pub arbitrable: bool,
    pub deviation: int,
    pub zero_for_one: bool,
    pub pool: int,
    pub target: int,
}

impl View for ArbDetection {
    type V = DetectionView;

    open spec fn view(&self) -> DetectionView {
        DetectionView {
            arbitrable: self.is_arbitrable,
            deviation: self.deviation_bps as int,
            zero_for_one: self.zero_for_one,
            pool: self.pool_sqrt_price_x96@,
            target: self.target_sqrt_price_x96@,
        }
    }
}

/// The square root price of a price of token 1 per token 0.
pub open spec fn sqrt_of_price(price: int) -> int {
    root(floor_mul_div(price, p192(), one_wad()))
}

/// What is left of one after a fee in millionths.
pub open spec fn left_after_fee(fee: int) -> int {
    wsub(one_wad(), fee * 1_000_000_000_000)
}

/// The arbitrage that pays after the fee: up to the outside price less the fee where
/// that is the higher one, or down to the outside price plus the fee. There is no
/// outcome where a price or what the fee leaves is zero and would divide.
pub open spec fn detected(pool: int, outside: int, fee: int) -> Option<DetectionView> {
    let here = price_of(pool);
    let there = price_of(outside);
    if there > here {
        let goal = floor_mul_div(there, left_after_fee(fee), one_wad());
        if here == 0 {
            None
        } else {
            Some(
                DetectionView {
                    arbitrable: here < goal,
                    deviation: floor_mul_div(there - here, 10_000, here) % p128(),
                    zero_for_one: false,
                    pool,
                    target: if here < goal {
                        sqrt_of_price(goal)
                    } else {
                        pool
                    },
                },
            )
        }
    } else if left_after_fee(fee) == 0 {
        None
    } else {
        let goal = floor_mul_div(there, one_wad(), left_after_fee(fee));
        Some(
            DetectionView {
                arbitrable: here > goal,
                deviation: if here == 0 {
                    0
                } else {
                    floor_mul_div(here - there, 10_000, here) % p128()
                },
                zero_for_one: true,
                pool,
                target: if here > goal {
                    sqrt_of_price(goal)
                } else {
                    pool
                },
            },
        )
    }
}

/// The gain of an exchange at a price, in stable units: what came out less what went
/// in.
pub open spec fn arb_profit(a0: int, a1: int, sqrt_price: int, vol0: bool) -> int {
    let price = price_of(sqrt_price);
    let value0 = floor_mul_div(abs(a0), price, one_wad());
    let gain = if a0 > 0 {
        abs(a1) - value0
    } else {
        value0 - abs(a1)
    };
    if price == 0 {
        0
    } else if vol0 {
        wrap_signed(gain)
    } else if gain < 0 {
        wrap_signed(-floor_mul_div(-gain, one_wad(), price))
    } else {
        wrap_signed(floor_mul_div(gain, one_wad(), price))
    }
}

/// The amount that an arbitrage offers: the price limit ends it earlier.
pub open spec fn arb_amount() -> int {
    1_000_000_000_000_000_000_000
}

/// The pool after an arbitrage, the amounts exchanged and the gain.
pub open spec fn gap_closed(p: PoolView, d: DetectionView, vol0: bool) -> Option<
    (PoolView, int, int, int),
> {
    if d.arbitrable {
        match swap_end(p, d.zero_for_one, arb_amount(), Some(d.target)) {
            Some(s) => {
                let (a0, a1) = swap_amounts(d.zero_for_one, arb_amount(), s);
                Some((swapped(p, d.zero_for_one, s), a0, a1, arb_profit(a0, a1, d.target, vol0)))
            },
            None => None,
        }
    } else {
        Some((p, 0, 0, 0))
    }
}

/// The square root price of a price of token 1 per token 0.
pub fn sqrt_from_wad_price(price_wad: U256) -> (r: U256)
    ensures
        r@ == sqrt_of_price(price_wad@),
{
    let v: U256 = mul_div(price_wad, Q192(), wad());
    let r: U256 = sqrt(v);
    proof {
        sqrt_unique(r@, root(v@), v@);
    }
    r
}

/// As `detect_arb`; `None` where it would divide by zero.
pub fn try_detect_arb(pool_sqrt: U256, external_sqrt: U256, fee_ppm: u32) -> (r: Option<
    ArbDetection,
>)
    ensures
        detected(pool_sqrt@, external_sqrt@, fee_ppm as int) == (match r {
            Some(d) => Some(d@),
            None => None,
        }),
{
    let w: U256 = wad();
    let pool_wad: U256 = pool_price(pool_sqrt);
    let ext_wad: U256 = pool_price(external_sqrt);
    let one_minus_fee: U256 = w - U256::from_u128(fee_ppm as u128 * 1_000_000_000_000);
    let bps: U256 = U256::from_u128(10_000);
    if ext_wad > pool_wad {
        if pool_wad.is_zero() {
            return None;
        }
        let dev: U256 = mul_div(distance(ext_wad, pool_wad), bps, pool_wad);
        let goal: U256 = mul_div(ext_wad, one_minus_fee, w);
        let is_arbitrable: bool = pool_wad < goal;
        let target: U256 = if is_arbitrable {
            sqrt_from_wad_price(goal)
        } else {
            pool_sqrt
        };
        Some(
            ArbDetection {
                is_arbitrable,
                deviation_bps: low_half(dev),
                zero_for_one: false,
                pool_sqrt_price_x96: pool_sqrt,
                target_sqrt_price_x96: target,
            },
        )
    } else {
        if one_minus_fee.is_zero() {
            return None;
        }
        let dev: U256 = if pool_wad.is_zero() {
            U256::ZERO()
        } else {
            mul_div(distance(pool_wad, ext_wad), bps, pool_wad)
        };
        let goal: U256 = mul_div(ext_wad, w, one_minus_fee);
        let is_arbitrable: bool = pool_wad > goal;
        let target: U256 = if is_arbitrable {
            sqrt_from_wad_price(goal)
        } else {
            pool_sqrt
        };
        Some(
            ArbDetection {
                is_arbitrable,
                deviation_bps: low_half(dev),
                zero_for_one: true,
                pool_sqrt_price_x96: pool_sqrt,
                target_sqrt_price_x96: target,
            },
        )
    }
}

/// Compares the pool's price with an outside one, for a fee in millionths.
pub fn detect_arb(pool_sqrt: U256, external_sqrt: U256, fee_ppm: u32) -> (r: ArbDetection)
    requires
        detected(pool_sqrt@, external_sqrt@, fee_ppm as int) is Some,
    ensures
        detected(pool_sqrt@, external_sqrt@, fee_ppm as int) == Some(r@),
{
    match try_detect_arb(pool_sqrt, external_sqrt, fee_ppm) {
        Some(d) => d,
        None => ArbDetection {
            is_arbitrable: false,
            deviation_bps: 0,
            zero_for_one: false,
            pool_sqrt_price_x96: pool_sqrt,
            target_sqrt_price_x96: pool_sqrt,
        },
    }
}

fn low_half(x: U256) -> (r: u128)
    ensures
        r == x@ % p128(),
{
    proof {
        crate::arith::div_unique(x@, p128(), x.hi as int, x.lo as int);
    }
    x.lo
}

/// A magnitude with a sign.
pub(crate) fn signed(x: U256, negative: bool) -> (r: I256)
    ensures
        r@ == wrap_signed(if negative {
            -x@
        } else {
            x@
        }),
{
    if negative {
        proof {
            wrap_signed_facts(x@);
            congruent(-wrap_signed(x@), -x@, if wrap_signed(x@) < 0 {
                1
            } else {
                0
            });
        }
        I256(x).negate()
    } else {
        I256(x)
    }
}

/// The gain of an exchange at a price, in stable units.
pub fn compute_arb_profit(
    amount0: I256,
    amount1: I256,
    external_sqrt: U256,
    is_volatile_token0: bool,
) -> (r: I256)
    ensures
        r@ == arb_profit(amount0@, amount1@, external_sqrt@, is_volatile_token0),
{
    let w: U256 = wad();
    let price: U256 = pool_price(external_sqrt);
    if price.is_zero() {
        return I256::ZERO();
    }
    let abs1: U256 = amount1.abs();
    let value0: U256 = mul_div(amount0.abs(), price, w);
    let (plus, minus) = if amount0.is_positive() {
        (abs1, value0)
    } else {
        (value0, abs1)
    };
    let size: U256 = distance(plus, minus);
    let part: U256 = if is_volatile_token0 {
        size
    } else {
        mul_div(size, w, price)
    };
    signed(part, plus < minus)
}

/// As `execute_arb_close_gap`; `None`, with the pool as it was, where the swap fails.
pub fn try_execute_arb_close_gap(
    pool: &mut CorePool,
    detection: &ArbDetection,
    is_volatile_token0: bool,
) -> (r: Option<ArbResult>)
    requires
        old(pool).valid(),
    ensures
        final(pool).valid(),
        gap_closed(old(pool)@, detection@, is_volatile_token0) == (match r {
            Some(x) => Some((final(pool)@, x.amount0@, x.amount1@, x.profit_stable@)),
            None => None,
        }),
        r matches Some(x) ==> x.zero_for_one == detection.zero_for_one,
        r is None ==> *final(pool) == *old(pool),
{
    if !detection.is_arbitrable {
        return Some(
            ArbResult {
                amount0: I256::ZERO(),
                amount1: I256::ZERO(),
                profit_stable: I256::ZERO(),
                zero_for_one: detection.zero_for_one,
            },
        );
    }
    let large: I256 = I256(U256::from_u128(1_000_000_000_000_000_000_000));
    match pool.try_swap(detection.zero_for_one, large, Some(detection.target_sqrt_price_x96)) {
        Some((a0, a1)) => Some(
            ArbResult {
                amount0: a0,
                amount1: a1,
                profit_stable: compute_arb_profit(
                    a0,
                    a1,
                    detection.target_sqrt_price_x96,
                    is_volatile_token0,
                ),
                zero_for_one: detection.zero_for_one,
            },
        ),
        None => None,
    }
}

/// Swaps in the pool up to the price that a detection gives.
pub fn execute_arb_close_gap(
    pool: &mut CorePool,
    detection: &ArbDetection,
    is_volatile_token0: bool,
) -> (r: ArbResult)
    requires
        old(pool).valid(),
        gap_closed(old(pool)@, detection@, is_volatile_token0) is Some,
    ensures
        final(pool).valid(),
        gap_closed(old(pool)@, detection@, is_volatile_token0) == Some(
            (final(pool)@, r.amount0@, r.amount1@, r.profit_stable@),
        ),
        r.zero_for_one == detection.zero_for_one,
{
    match try_execute_arb_close_gap(pool, detection, is_volatile_token0) {
        Some(x) => x,
        None => ArbResult {
            amount0: I256::ZERO(),
            amount1: I256::ZERO(),
            profit_stable: I256::ZERO(),
            zero_for_one: detection.zero_for_one,
        },
    }
}

} // verus!
