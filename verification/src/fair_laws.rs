//! What the fair price of a vault is: a price at which its two sides are worth the same, or
//! as nearly so as the search finds.
use crate::arith::{p128, p256};
use crate::debt_laws::{floor_facts, price_is_bounded, small};
use crate::pool_model::PoolView;
use crate::tick_math::ratio_at;
use crate::types::{abs, max_ratio, min_ratio};
use crate::value_laws::worth_is_amount_at_price;
use crate::vault_fair::{
    even_price, fair_sqrt, held_at, highest_tick, holdings, is_active, lowest_tick, share_values,
    volatile_share, HoldingsView,
};
use crate::vault_math::{one_wad, price_of, stable_value, to_stable};
use crate::vault_model::VaultView;
use vstd::prelude::*;

verus! {

/// How far the volatile share at a price is from one half, both in units of 10^18.
pub open spec fn unevenness(h: HoldingsView, sqrt: int) -> int {
    abs(volatile_share(h, sqrt)->0 - 500_000_000_000_000_000)
}

/// The share of the volatile side is what it is worth over what all is worth, in units of
/// 10^18, rounded down.
pub proof fn volatile_share_is_part_of_value(h: HoldingsView, sqrt: int)
    requires
        held_at(h, sqrt) matches Some((t0, t1)) && 0 <= t0 < p128() && 0 <= t1 < p128(),
    ensures
        volatile_share(h, sqrt) matches Some(r) && {
            let (t0, t1) = held_at(h, sqrt)->0;
            let (volatile, stable) = if h.vol0 {
                (t0, t1)
            } else {
                (t1, t0)
            };
            let worth = to_stable(h.vol0, volatile, price_of(sqrt));
            &&& stable + worth == 0 ==> r == 0
            &&& stable + worth > 0 ==> r * (stable + worth) <= worth * 1_000_000_000_000_000_000
                && worth * 1_000_000_000_000_000_000 < (r + 1) * (stable + worth)
        },
{
    reveal(volatile_share);
    let (t0, t1) = held_at(h, sqrt)->0;
    let (volatile, stable) = if h.vol0 {
        (t0, t1)
    } else {
        (t1, t0)
    };
    let price = price_of(sqrt);
    price_is_bounded(sqrt);
    worth_is_amount_at_price(h.vol0, volatile, price);
    let worth = to_stable(h.vol0, volatile, price);
    assert(worth < 0x1000_0000_0000_0000_0000_0000_0000_0000_0000_0000_0000_0000_0000_0000_0000_0000int)
        by (nonlinear_arith)
        requires
            worth * one_wad() <= volatile * price || worth * price <= volatile * one_wad() && price
                >= 1 || worth == 0,
            0 <= volatile < p128(),
            0 <= price < 0x1000_0000_0000_0000_0000_0000_0000_0000int,
            0 <= worth,
    ;
    small(stable + worth);
    let total = stable + worth;
    if total > 0 {
        assert(worth * one_wad() < (one_wad() + 1) * total) by (nonlinear_arith)
            requires
                0 <= worth <= total,
                total > 0,
        ;
        floor_facts(worth, one_wad(), total, one_wad() + 1);
    }
}

/// A search returns what it started from, or the price of a tick strictly between its ends
/// that is nearer to even.
#[verifier::rlimit(30)]
proof fn search_finds_nearer(h: HoldingsView, low: int, high: int, best: int, off: int, n: nat)
    ensures
        even_price(h, low, high, best, off, n) matches Some((b, o)) ==> {
            ||| b == best && o == off
            ||| o < off && volatile_share(h, b) is Some && unevenness(h, b) == o && exists|t: int|
                low < t < high && b == #[trigger] ratio_at(t)
        },
    decreases n,
{
    let mid = (low + high) / 2;
    if n > 0 && low < mid < high {
        if let Some(share) = volatile_share(h, ratio_at(mid)) {
            let d = abs(share - 500_000_000_000_000_000);
            let (b, o) = if d < off {
                (ratio_at(mid), d)
            } else {
                (best, off)
            };
            search_finds_nearer(h, mid, high, b, o, (n - 1) as nat);
            search_finds_nearer(h, low, mid, b, o, (n - 1) as nat);
        }
    }
}

/// A search goes on where the share comes nearer to one half: towards higher prices where
/// the volatile token is token 0 and its share is too large, or where it is token 1 and its
/// share is too small; towards lower ones otherwise. Within a thousandth it stops.
#[verifier::rlimit(30)]
pub proof fn search_goes_where_sides_meet(
    h: HoldingsView,
    low: int,
    high: int,
    best: int,
    off: int,
    n: nat,
)
    requires
        n > 0,
        low < (low + high) / 2 < high,
        volatile_share(h, ratio_at((low + high) / 2)) is Some,
    ensures
        even_price(h, low, high, best, off, n) matches Some((b, o)) ==> {
            let mid = (low + high) / 2;
            let share = volatile_share(h, ratio_at(mid))->0;
            let d = abs(share - 500_000_000_000_000_000);
            let up = if h.vol0 {
                share > 500_000_000_000_000_000
            } else {
                share < 500_000_000_000_000_000
            };
            &&& o <= off && o <= d
            &&& d < 1_000_000_000_000_000 && d < off ==> b == ratio_at(mid)
            &&& b == best || b == ratio_at(mid) || (d >= 1_000_000_000_000_000 && if up {
                exists|t: int| mid < t < high && b == #[trigger] ratio_at(t)
            } else {
                exists|t: int| low < t < mid && b == #[trigger] ratio_at(t)
            })
        },
{
    let mid = (low + high) / 2;
    let share = volatile_share(h, ratio_at(mid))->0;
    let d = abs(share - 500_000_000_000_000_000);
    let (b, o) = if d < off {
        (ratio_at(mid), d)
    } else {
        (best, off)
    };
    search_finds_nearer(h, mid, high, b, o, (n - 1) as nat);
    search_finds_nearer(h, low, mid, b, o, (n - 1) as nat);
}

/// The fair price is no less even than the present one, and it is the present one or that
/// of a tick no more than five thousand beyond the ranges.
#[verifier::rlimit(30)]
pub proof fn fair_price_is_no_less_even(h: HoldingsView, sqrt: int, low: int, high: int)
    ensures
        fair_sqrt(h, sqrt, low, high) matches Some(s) ==> {
            &&& min_ratio() <= sqrt < max_ratio()
            &&& volatile_share(h, s) is Some
            &&& unevenness(h, s) <= unevenness(h, sqrt)
            &&& s == sqrt || (unevenness(h, s) < unevenness(h, sqrt) && exists|t: int|
                -887_272 < t < 887_272 && s == #[trigger] ratio_at(t) && (t < high + 5_000 || t
                    < crate::pool_model::tick_of(sqrt)) && (t > low - 5_000 || t
                    > crate::pool_model::tick_of(sqrt)))
        },
{
    reveal(fair_sqrt);
    if min_ratio() <= sqrt < max_ratio() {
        crate::pool_laws::tick_of_exists(sqrt);
    }
    let tick = crate::pool_model::tick_of(sqrt);
    let off = unevenness(h, sqrt);
    let bottom = if -887_272 >= low - 5000 {
        -887_272
    } else {
        low - 5000
    };
    let top = if 887_272 <= high + 5000 {
        887_272
    } else {
        high + 5000
    };
    search_finds_nearer(h, bottom, tick, sqrt, off, 30);
    search_finds_nearer(h, tick, top, sqrt, off, 30);
}

/// Where the ranges hold liquidity, the fair price is the evener one of what is found below
/// the present price and above it.
pub proof fn both_sides_are_searched(h: HoldingsView, sqrt: int, low: int, high: int)
    ensures
        fair_sqrt(h, sqrt, low, high) matches Some(s) ==> {
            let tick = crate::pool_model::tick_of(sqrt);
            let off = unevenness(h, sqrt);
            let bottom = if -887_272 >= low - 5000 {
                -887_272
            } else {
                low - 5000
            };
            let top = if 887_272 <= high + 5000 {
                887_272
            } else {
                high + 5000
            };
            let (a, x) = even_price(h, bottom, tick, sqrt, off, 30)->0;
            let (b, y) = even_price(h, tick, top, sqrt, off, 30)->0;
            &&& s == a || s == b
            &&& s == a ==> x <= y || a == b
            &&& s == b ==> y <= x || a == b
        },
{
    reveal(fair_sqrt);
}

/// A share is worth its part of the net value, in units of 10^18, rounded down: now, and at
/// the price that is told with it. Without shares all is zero; without liquidity both are
/// the same, at the price that is given or else the pool's.
#[verifier::rlimit(30)]
pub proof fn share_value_is_part_of_net_value(v: VaultView, p: PoolView, nav: int, o: Option<int>)
    requires
        0 <= nav < p128(),
        0 <= v.supply < p256(),
    ensures
        share_values(v, p, nav, o) matches Some((now, fair, price)) ==> {
            let h = holdings(v, p);
            &&& v.supply == 0 ==> now == 0 && fair == 0 && price == 0
            &&& v.supply > 0 ==> now * v.supply <= nav * 1_000_000_000_000_000_000 && nav
                * 1_000_000_000_000_000_000 < (now + 1) * v.supply
            &&& v.supply > 0 && !is_active(h.wide) && !is_active(h.base) && !is_active(h.limit)
                ==> fair == now && price == price_of(match o {
                Some(x) => x,
                None => p.price,
            })
            &&& v.supply > 0 && (is_active(h.wide) || is_active(h.base) || is_active(h.limit)) ==> ({
                let s = fair_sqrt(h, p.price, lowest_tick(h)->0, highest_tick(h)->0)->0;
                let (t0, t1) = held_at(h, s)->0;
                let gross = stable_value(h.vol0, t0, t1, price_of(s));
                let net = if gross > v.debt {
                    gross - v.debt
                } else {
                    0
                };
                &&& price == price_of(s)
                &&& net < p128() ==> fair * v.supply <= net * 1_000_000_000_000_000_000 && net
                    * 1_000_000_000_000_000_000 < (fair + 1) * v.supply
            })
        },
{
    if v.supply > 0 {
        assert(nav * one_wad() < p256() * v.supply) by (nonlinear_arith)
            requires
                0 <= nav < p128(),
                v.supply >= 1,
        ;
        floor_facts(nav, one_wad(), v.supply, p256());
        let h = holdings(v, p);
        if is_active(h.wide) || is_active(h.base) || is_active(h.limit) {
            let s = fair_sqrt(h, p.price, lowest_tick(h)->0, highest_tick(h)->0)->0;
            let (t0, t1) = held_at(h, s)->0;
            let gross = stable_value(h.vol0, t0, t1, price_of(s));
            let net = if gross > v.debt {
                gross - v.debt
            } else {
                0
            };
            if net < p128() {
                assert(net * one_wad() < p256() * v.supply) by (nonlinear_arith)
                    requires
                        0 <= net < p128(),
                        v.supply >= 1,
                ;
                floor_facts(net, one_wad(), v.supply, p256());
            }
        }
    }
}

/// The ticks between which the fair price is looked for hold all ranges.
pub proof fn search_spans_all_ranges(h: HoldingsView)
    ensures
        lowest_tick(h) matches Some(low) ==> {
            &&& h.wide matches Some(r) ==> low <= r.lower
            &&& h.base matches Some(r) ==> low <= r.lower
            &&& h.limit matches Some(r) ==> low <= r.lower
        },
        highest_tick(h) matches Some(high) ==> {
            &&& h.wide matches Some(r) ==> high >= r.upper
            &&& h.base matches Some(r) ==> high >= r.upper
            &&& h.limit matches Some(r) ==> high >= r.upper
        },
        lowest_tick(h) is Some == (h.wide is Some || h.base is Some || h.limit is Some),
        highest_tick(h) is Some == (h.wide is Some || h.base is Some || h.limit is Some),
{
}

} // verus!
