//! What arbitrage is for: it takes place where the prices are further apart than the fee,
//! stops where the fee eats the rest, and gains what it gets less what it gives.
use crate::arb::{arb_profit, detected, gap_closed, sqrt_of_price};
use crate::arith::{p128, p192, p256, wrap_signed_facts};
use crate::debt_laws::{floor_facts, price_is_bounded, small};
use crate::full_math::{floor_mul_div, is_sqrt};
use crate::pool_model::{pool_valid, PoolView};
use crate::types::abs;
use crate::vault_math::{one_wad, price_of, root};
use crate::vault_laws::arbitrage_stops_at_target;
use vstd::prelude::*;

verus! {

/// Every number from zero on has an integer square root.
pub proof fn root_is_square_root(v: int)
    requires
        0 <= v,
    ensures
        is_sqrt(root(v), v),
        root(v) * root(v) <= v < (root(v) + 1) * (root(v) + 1),
        0 <= root(v),
    decreases v,
{
    if v == 0 {
        assert(is_sqrt(0, 0));
    } else {
        root_is_square_root(v - 1);
        let r = root(v - 1);
        if (r + 1) * (r + 1) <= v {
            assert(v < (r + 1 + 1) * (r + 1 + 1)) by (nonlinear_arith)
                requires
                    v - 1 < (r + 1) * (r + 1),
                    0 <= r,
            ;
            assert(is_sqrt(r + 1, v));
        } else {
            assert(is_sqrt(r, v));
        }
    }
}

/// A price is the square of its root over 2^192, in units of 10^18, rounded down.
pub proof fn price_is_square(sqrt_price: int)
    requires
        0 <= sqrt_price < p128(),
    ensures
        0 <= price_of(sqrt_price),
        price_of(sqrt_price) * p192() <= sqrt_price * sqrt_price * 1_000_000_000_000_000_000,
        sqrt_price * sqrt_price * 1_000_000_000_000_000_000 < (price_of(sqrt_price) + 1) * p192(),
{
    let s = sqrt_price * sqrt_price;
    assert(0 <= s < p256()) by (nonlinear_arith)
        requires
            s == sqrt_price * sqrt_price,
            0 <= sqrt_price < p128(),
    ;
    small(s);
    assert(s * one_wad() < p256() * p192());
    floor_facts(s, one_wad(), p192(), p256());
}

/// The root of a price is the largest one whose square is not above it.
pub proof fn root_of_price_is_square_root(price: int)
    requires
        0 <= price,
        price * p192() < p256() * 1_000_000_000_000_000_000,
    ensures
        ({
            let t = sqrt_of_price(price);
            &&& 0 <= t
            &&& t * t * 1_000_000_000_000_000_000 <= price * p192()
            &&& price * p192() < (t + 1) * (t + 1) * 1_000_000_000_000_000_000
        }),
{
    floor_facts(price, p192(), one_wad(), p256());
    root_is_square_root(floor_mul_div(price, p192(), one_wad()));
}

/// The fee of an arbitrage takes what it says.
proof fn goal_facts(there: int, fee: int)
    requires
        0 <= there < p128(),
        0 <= fee < 1_000_000,
    ensures
        ({
            let left = crate::arb::left_after_fee(fee);
            let up = floor_mul_div(there, left, one_wad());
            let down = floor_mul_div(there, one_wad(), left);
            &&& left == (1_000_000 - fee) * 1_000_000_000_000
            &&& 0 <= up && 0 <= down < p256()
            &&& up * 1_000_000 <= there * (1_000_000 - fee)
            &&& there * (1_000_000 - fee) < (up + 1) * 1_000_000
            &&& down * (1_000_000 - fee) <= there * 1_000_000
            &&& there * 1_000_000 < (down + 1) * (1_000_000 - fee)
        }),
{
    let k = 1_000_000 - fee;
    let left = one_wad() - fee * 1_000_000_000_000;
    small(left);
    assert(there * left == (there * k) * 1_000_000_000_000) by (nonlinear_arith)
        requires
            left == k * 1_000_000_000_000,
    ;
    assert(0 <= there * k < p256() * 1_000_000 && there < p256() * k) by (nonlinear_arith)
        requires
            0 <= there < p128(),
            0 < k <= 1_000_000,
    ;
    floor_facts(there, left, one_wad(), p256());
    assert(there * one_wad() < p256() * left) by (nonlinear_arith)
        requires
            there < p128(),
            left == k * 1_000_000_000_000,
            k >= 1,
    ;
    floor_facts(there, one_wad(), left, p256());
    let down = floor_mul_div(there, one_wad(), left);
    assert(down * left == (down * k) * 1_000_000_000_000 && (down + 1) * left == ((down + 1) * k)
        * 1_000_000_000_000) by (nonlinear_arith)
        requires
            left == k * 1_000_000_000_000,
    ;
}

/// An arbitrage pays where the prices are further apart than the fee: buying token 0 where
/// the outside price less the fee is above the pool's by at least one unit, selling it
/// where the pool's price less the fee is above the outside one. It is meant to go down
/// just where the outside price is not the higher one.
#[verifier::rlimit(30)]
pub proof fn arbitrage_beats_fee(pool: int, outside: int, fee: int)
    requires
        0 <= fee < 1_000_000,
    ensures
        detected(pool, outside, fee) matches Some(d) ==> {
            let here = price_of(pool);
            let there = price_of(outside);
            &&& d.pool == pool
            &&& d.zero_for_one == (there <= here)
            &&& !d.zero_for_one ==> d.arbitrable == ((here + 1) * 1_000_000 <= there * (1_000_000
                - fee))
            &&& d.zero_for_one ==> d.arbitrable == (there * 1_000_000 < here * (1_000_000 - fee))
            &&& !d.arbitrable ==> d.target == pool
        },
        price_of(pool) > 0 ==> detected(pool, outside, fee) is Some,
{
    let here = price_of(pool);
    let there = price_of(outside);
    let k = 1_000_000 - fee;
    price_is_bounded(pool);
    price_is_bounded(outside);
    goal_facts(there, fee);
    let left = crate::arb::left_after_fee(fee);
    let up = floor_mul_div(there, left, one_wad());
    let down = floor_mul_div(there, one_wad(), left);
    if here > down {
        assert(here * k >= (down + 1) * k) by (nonlinear_arith)
            requires
                here >= down + 1,
                k > 0,
        ;
    } else {
        assert(here * k <= down * k) by (nonlinear_arith)
            requires
                here <= down,
                k > 0,
        ;
    }
}

/// The target of an arbitrage is where the fee eats the rest: the outside price less the
/// fee when buying, the outside price over what the fee leaves when selling, as a root
/// rounded down.
#[verifier::rlimit(30)]
pub proof fn arbitrage_aims_at_outside_price(pool: int, outside: int, fee: int)
    requires
        0 <= fee < 1_000_000,
        0 <= pool < p128(),
        0 <= outside < p128(),
    ensures
        detected(pool, outside, fee) matches Some(d) ==> (d.arbitrable ==> {
            let there = price_of(outside);
            let left = 1_000_000 - fee;
            let low = d.target * d.target * 1_000_000_000_000_000_000;
            let high = (d.target + 1) * (d.target + 1) * 1_000_000_000_000_000_000;
            &&& 0 <= d.target
            &&& !d.zero_for_one ==> low * 1_000_000 <= there * left * p192() && there * left * p192()
                < (high + p192()) * 1_000_000
            &&& d.zero_for_one ==> low * left <= there * 1_000_000 * p192() && there * 1_000_000
                * p192() < (high + p192()) * left
        }),
{
    let here = price_of(pool);
    let there = price_of(outside);
    let k = 1_000_000 - fee;
    price_is_bounded(pool);
    price_is_bounded(outside);
    price_is_square(pool);
    price_is_square(outside);
    goal_facts(there, fee);
    if let Some(d) = detected(pool, outside, fee) {
        if d.arbitrable {
            let left = crate::arb::left_after_fee(fee);
            let up = floor_mul_div(there, left, one_wad());
            let down = floor_mul_div(there, one_wad(), left);
            let goal = if d.zero_for_one {
                down
            } else {
                up
            };
            if !d.zero_for_one {
                assert(up <= there) by (nonlinear_arith)
                    requires
                        up * 1_000_000 <= there * k,
                        k <= 1_000_000,
                        0 <= there,
                ;
            }
            let top = if d.zero_for_one {
                pool
            } else {
                outside
            };
            assert(top * top < p256()) by (nonlinear_arith)
                requires
                    0 <= top < p128(),
            ;
            assert(goal * p192() < p256() * one_wad());
            root_of_price_is_square_root(goal);
            let t = d.target;
            let low = t * t * one_wad();
            let high = (t + 1) * (t + 1) * one_wad();
            if d.zero_for_one {
                assert(low * k <= there * 1_000_000 * p192()) by (nonlinear_arith)
                    requires
                        low <= goal * p192(),
                        goal * k <= there * 1_000_000,
                        k > 0,
                ;
                assert(there * 1_000_000 * p192() < (high + p192()) * k) by (nonlinear_arith)
                    requires
                        goal * p192() < high,
                        there * 1_000_000 < (goal + 1) * k,
                        k > 0,
                ;
            } else {
                assert(low * 1_000_000 <= there * k * p192());
                assert(there * k * p192() < (high + p192()) * 1_000_000);
            }
        }
    }
}

/// How far apart the prices are is told in ten-thousandths of the pool's price, rounded
/// down.
pub proof fn deviation_is_relative(pool: int, outside: int, fee: int)
    requires
        0 <= fee < 1_000_000,
        price_of(pool) > 0,
        abs(price_of(outside) - price_of(pool)) * 10_000 < p128() * price_of(pool),
    ensures
        detected(pool, outside, fee) matches Some(d) && {
            let here = price_of(pool);
            let apart = abs(price_of(outside) - here);
            d.deviation * here <= apart * 10_000 && apart * 10_000 < (d.deviation + 1) * here
        },
{
    price_is_bounded(pool);
    price_is_bounded(outside);
    goal_facts(price_of(outside), fee);
    let here = price_of(pool);
    let apart = abs(price_of(outside) - here);
    floor_facts(apart, 10_000, here, p128());
    vstd::arithmetic::div_mod::lemma_small_mod(
        floor_mul_div(apart, 10_000, here) as nat,
        p128() as nat,
    );
}

/// The gain is what came out less what went in, both at the price: where token 1 is the
/// stable one, token 0 counts by its value; where token 0 is, the gain in token 1 is
/// exchanged at the price. All is rounded towards zero.
#[verifier::rlimit(30)]
pub proof fn gain_is_output_less_input(a0: int, a1: int, sqrt_price: int, vol0: bool)
    requires
        -p128() < a0 < p128(),
        -p128() < a1 < p128(),
        price_of(sqrt_price) > 0,
    ensures
        ({
            let price = price_of(sqrt_price);
            let worth = abs(a0) * price / 1_000_000_000_000_000_000;
            let gain = if a0 > 0 {
                abs(a1) - worth
            } else {
                worth - abs(a1)
            };
            let r = arb_profit(a0, a1, sqrt_price, vol0);
            &&& vol0 ==> r == gain
            &&& !vol0 && gain >= 0 ==> 0 <= r && r * price <= gain * 1_000_000_000_000_000_000
                && gain * 1_000_000_000_000_000_000 < (r + 1) * price
            &&& !vol0 && gain < 0 ==> r <= 0 && -r * price <= -gain * 1_000_000_000_000_000_000
                && -gain * 1_000_000_000_000_000_000 < (-r + 1) * price
        }),
{
    let price = price_of(sqrt_price);
    price_is_bounded(sqrt_price);
    let a = abs(a0);
    assert(0 <= a * price < 0x10_0000_0000_0000_0000_0000_0000_0000_0000_0000_0000_0000_0000int
        * one_wad()) by (nonlinear_arith)
        requires
            0 <= a < p128(),
            0 <= price < 0x1000_0000_0000_0000_0000_0000_0000_0000int,
    ;
    floor_facts(
        a,
        price,
        one_wad(),
        0x10_0000_0000_0000_0000_0000_0000_0000_0000_0000_0000_0000_0000int,
    );
    let worth = a * price / one_wad();
    let gain = if a0 > 0 {
        abs(a1) - worth
    } else {
        worth - abs(a1)
    };
    let size = abs(gain);
    assert(size * one_wad() < crate::arith::p255() * price) by (nonlinear_arith)
        requires
            0 <= size,
            size < p128() || size * one_wad() <= a * price,
            a < p128(),
            price >= 1,
    ;
    floor_facts(size, one_wad(), price, crate::arith::p255());
    let part = floor_mul_div(size, one_wad(), price);
    wrap_signed_facts(gain);
    wrap_signed_facts(part);
    wrap_signed_facts(-part);
    crate::arith::congruent(gain, gain, 0);
}

/// What an arbitrage exchanges is valued at the price that it aims at; one that does not
/// pay exchanges nothing.
pub proof fn gap_is_closed_at_a_gain(
    p: PoolView,
    d: crate::arb::DetectionView,
    vol0: bool,
)
    ensures
        gap_closed(p, d, vol0) matches Some((q, a0, a1, gain)) ==> {
            &&& d.arbitrable ==> gain == arb_profit(a0, a1, d.target, vol0)
            &&& !d.arbitrable ==> q == p && a0 == 0 && a1 == 0 && gain == 0
        },
{
}

/// An arbitrage offers 10^21 units: it ends at its target, or with all of that used.
pub proof fn arbitrage_offers_enough(p: PoolView, d: crate::arb::DetectionView, vol0: bool)
    requires
        pool_valid(p),
        p.price != 0,
        d.arbitrable,
        gap_closed(p, d, vol0) is Some,
    ensures
        ({
            let (q, a0, a1, gain) = gap_closed(p, d, vol0)->0;
            let paid = if d.zero_for_one {
                a0
            } else {
                a1
            };
            &&& 0 <= paid <= 1_000_000_000_000_000_000_000
            &&& q.price == d.target || paid == 1_000_000_000_000_000_000_000
        }),
{
    arbitrage_stops_at_target(p, d, vol0);
}

} // verus!
