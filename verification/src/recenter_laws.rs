//! What following the price means: how far the ranges move, which way, and which of them
//! stay.
use crate::pool_model::PoolView;
use crate::types::abs;
use crate::value_laws::{ranges_are_placed_around_price, reaches, stands_beside};
use crate::vault_laws::withdrawal_moves_holdings;
use crate::vault_model::{
    burned_range, deployed, emptied, minted_range, topped_up, RangeView, Slot, VaultView,
};
use crate::vault_recenter::{
    all_shifted, base_middle, limit_moved, limit_target, moved_range, recentered, shifted,
    spacings_off, stepped, Deviation,
};
use crate::vault_math::max_liquidity;
use vstd::prelude::*;

verus! {

/// A tick within the ticks that there are.
pub open spec fn within_ticks(t: int) -> int {
    if t < -887_272 {
        -887_272
    } else if t > 887_272 {
        887_272
    } else {
        t
    }
}

/// A range that has moved by some ticks, whatever its liquidity. One without liquidity
/// stays, and so may one that holds the current tick.
pub open spec fn moved_by(
    r: Option<RangeView>,
    x: Option<RangeView>,
    shift: int,
    tick: int,
    only_outside: bool,
) -> bool {
    match (r, x) {
        (Some(a), Some(b)) => if a.liquidity == 0 || (only_outside && a.lower <= tick < a.upper) {
            b.lower == a.lower && b.upper == a.upper
        } else {
            b.lower == within_ticks(a.lower + shift) && b.upper == within_ticks(a.upper + shift)
        },
        (None, None) => true,
        _ => false,
    }
}

/// The same ticks, whatever the liquidity.
spec fn same_ticks(r: Option<RangeView>, x: Option<RangeView>) -> bool {
    match (r, x) {
        (Some(a), Some(b)) => b.lower == a.lower && b.upper == a.upper,
        (None, None) => true,
        _ => false,
    }
}

proof fn top_up_keeps_ticks(v: VaultView, p: PoolView, slot: Slot)
    ensures
        topped_up(v, p, slot) matches Some((w, q)) ==> same_ticks(v.base, w.base) && same_ticks(
            v.wide,
            w.wide,
        ) && same_ticks(v.limit, w.limit),
{
    reveal(topped_up);
    reveal(minted_range);
}

proof fn deploying_keeps_ticks(v: VaultView, p: PoolView)
    ensures
        deployed(v, p) matches Some((w, q)) ==> same_ticks(v.base, w.base) && same_ticks(
            v.wide,
            w.wide,
        ) && same_ticks(v.limit, w.limit),
{
    top_up_keeps_ticks(v, p, Slot::Base);
    if let Some((v1, p1)) = topped_up(v, p, Slot::Base) {
        top_up_keeps_ticks(v1, p1, Slot::Wide);
        if let Some((v2, p2)) = topped_up(v1, p1, Slot::Wide) {
            top_up_keeps_ticks(v2, p2, Slot::Limit);
        }
    }
}

#[verifier::rlimit(30)]
proof fn shift_moves_one(v: VaultView, p: PoolView, slot: Slot, shift: int, only_outside: bool)
    ensures
        shifted(v, p, slot, shift, only_outside) matches Some((w, q)) ==> {
            &&& moved_by(v.range(slot), w.range(slot), shift, p.tick, only_outside)
            &&& slot != Slot::Wide ==> w.wide == v.wide
            &&& slot != Slot::Base ==> w.base == v.base
            &&& slot != Slot::Limit ==> w.limit == v.limit
            &&& w.params == v.params && w.spacing == v.spacing && q.tick == p.tick
        },
{
    reveal(shifted);
    reveal(moved_range);
    reveal(burned_range);
}

proof fn shift_moves_all(v: VaultView, p: PoolView, shift: int, only_outside: bool)
    ensures
        all_shifted(v, p, shift, only_outside) matches Some((w, q)) ==> {
            &&& moved_by(v.wide, w.wide, shift, p.tick, only_outside)
            &&& moved_by(v.base, w.base, shift, p.tick, only_outside)
            &&& moved_by(v.limit, w.limit, shift, p.tick, only_outside)
            &&& w.params == v.params && w.spacing == v.spacing && q.tick == p.tick
        },
{
    shift_moves_one(v, p, Slot::Wide, shift, only_outside);
    if let Some((v1, p1)) = shifted(v, p, Slot::Wide, shift, only_outside) {
        shift_moves_one(v1, p1, Slot::Base, shift, only_outside);
        if let Some((v2, p2)) = shifted(v1, p1, Slot::Base, shift, only_outside) {
            shift_moves_one(v2, p2, Slot::Limit, shift, only_outside);
        }
    }
}

/// The ticks of a range beside the current one, within the ticks that there are.
pub open spec fn beside(r: Option<RangeView>, tick: int, spacing: int, width: int) -> bool {
    r matches Some(x) && {
        let below = tick / spacing * spacing;
        (x.lower == within_ticks(below - width) && x.upper == within_ticks(below)) || (x.lower
            == within_ticks(below + spacing) && x.upper == within_ticks(below + spacing + width))
    }
}

#[verifier::rlimit(30)]
proof fn limit_moves_beside(v: VaultView, p: PoolView)
    ensures
        limit_moved(v, p) matches Some((w, q)) ==> {
            &&& w.wide == v.wide
            &&& w.base == v.base
            &&& same_ticks(v.limit, w.limit) || beside(
                w.limit,
                p.tick,
                v.spacing,
                v.params.limit_threshold as int,
            )
        },
{
    reveal(limit_moved);
    reveal(limit_target);
    reveal(moved_range);
    reveal(burned_range);
}

/// Following the price moves by as many spacings as the current tick is off the middle of
/// the base range, to the nearest one, but no faster than is allowed; nothing moves where
/// there is nothing to move, or where the deviation is below the least and the tick is not
/// one spacing off.
#[verifier::rlimit(30)]
pub proof fn recentering_moves_no_further(
    v: VaultView,
    p: PoolView,
    only_outside: bool,
    move_limit: bool,
    d: Deviation,
)
    requires
        v.spacing > 0,
        d.shift_speed >= 0,
    ensures
        recentered(v, p, only_outside, move_limit, d) matches Some((w, q, n)) ==> {
            let middle = match v.base {
                Some(r) => if r.lower + r.upper >= 0 {
                    (r.lower + r.upper) / 2
                } else {
                    -((-(r.lower + r.upper)) / 2)
                },
                None => p.tick,
            };
            let off = abs(p.tick - middle);
            &&& 0 <= n
            &&& (2 * n - 1) * v.spacing <= 2 * off
            &&& !d.emergency ==> n <= d.shift_speed
            &&& n == 0 || n == d.shift_speed || 2 * off < (2 * n + 1) * v.spacing
            &&& !d.emergency && n == 0 ==> w == v && q == p
            &&& d.below_min && 2 * off < v.spacing ==> n == 0 && w == v && q == p
        },
{
    let off = abs(p.tick - base_middle(v, p));
    let n = 2 * off + v.spacing;
    let s = 2 * v.spacing;
    let k = spacings_off(v, p);
    crate::arith::div_facts(n, s);
    assert(0 <= k && (2 * k - 1) * v.spacing <= 2 * off && 2 * off < (2 * k + 1) * v.spacing)
        by (nonlinear_arith)
        requires
            n == k * s + n % s,
            0 <= n % s < s,
            n == 2 * off + v.spacing,
            s == 2 * v.spacing,
            off >= 0,
            v.spacing > 0,
    ;
    let speed = d.shift_speed as int;
    if speed <= k {
        assert((2 * speed - 1) * v.spacing <= (2 * k - 1) * v.spacing) by (nonlinear_arith)
            requires
                speed <= k,
                v.spacing > 0,
        ;
    }
    assert(2 * off < v.spacing ==> k < 1) by (nonlinear_arith)
        requires
            (2 * k - 1) * v.spacing <= 2 * off,
            v.spacing > 0,
    ;
    if let Some((w, q, n)) = recentered(v, p, only_outside, move_limit, d) {
        assert(n == 0 || n == k || n == speed && speed <= k);
        assert(n == 0 ==> (2 * n - 1) * v.spacing == -v.spacing) by (nonlinear_arith);
    }
}

/// A step moves every range that it is to move by that many spacings towards the current
/// tick, and keeps its width within the ticks that there are. The limit range may instead
/// be put beside the current tick, where that is asked for.
#[verifier::rlimit(30)]
pub proof fn recentering_moves_towards_price(
    v: VaultView,
    p: PoolView,
    only_outside: bool,
    move_limit: bool,
    d: Deviation,
)
    requires
        !d.emergency,
    ensures
        recentered(v, p, only_outside, move_limit, d) matches Some((w, q, n)) ==> (n > 0 ==> {
            let middle = match v.base {
                Some(r) => if r.lower + r.upper >= 0 {
                    (r.lower + r.upper) / 2
                } else {
                    -((-(r.lower + r.upper)) / 2)
                },
                None => p.tick,
            };
            let shift = if p.tick > middle {
                n * v.spacing
            } else {
                -(n * v.spacing)
            };
            &&& moved_by(v.base, w.base, shift, p.tick, only_outside)
            &&& moved_by(v.wide, w.wide, shift, p.tick, only_outside)
            &&& moved_by(v.limit, w.limit, shift, p.tick, only_outside) || (move_limit && beside(
                w.limit,
                p.tick,
                v.spacing,
                v.params.limit_threshold as int,
            ))
        }),
{
    if let Some((w, q, n)) = recentered(v, p, only_outside, move_limit, d) {
        if n > 0 {
            reveal(stepped);
            let shift = crate::vault_recenter::shift_ticks(v, p, n);
            shift_moves_all(v, p, shift, only_outside);
            if let Some((v1, p1)) = all_shifted(v, p, shift, only_outside) {
                limit_moves_beside(v1, p1);
                deploying_keeps_ticks(v1, p1);
                if let Some((v2, p2)) = limit_moved(v1, p1) {
                    deploying_keeps_ticks(v2, p2);
                }
            }
        }
    }
}

/// In an emergency all ranges are given up and placed anew around the price, whatever the
/// speed.
#[verifier::rlimit(30)]
pub proof fn emergency_places_anew(
    v: VaultView,
    p: PoolView,
    only_outside: bool,
    move_limit: bool,
    d: Deviation,
)
    requires
        d.emergency,
        !d.below_min,
    ensures
        recentered(v, p, only_outside, move_limit, d) matches Some((w, q, n)) ==> {
            ||| w == v && q == p && n == 0
            ||| {
                &&& n == spacings_off(v, p)
                &&& w.base is None || reaches(
                    w.base,
                    p.tick,
                    v.spacing,
                    v.params.base_threshold as int,
                )
                &&& w.wide is None || reaches(
                    w.wide,
                    p.tick,
                    v.spacing,
                    v.params.wide_threshold as int,
                )
                &&& w.limit is None || stands_beside(
                    w.limit,
                    p.tick,
                    v.spacing,
                    v.params.limit_threshold as int,
                )
            }
        },
{
    withdrawal_moves_holdings(v, p);
    if let Some((w, q)) = emptied(v, p) {
        ranges_are_placed_around_price(w, q);
    }
}

/// The limit range is put on the side of the current tick that takes more of what is idle,
/// among those that there is room for.
pub proof fn limit_moves_to_larger_side(v: VaultView, p: PoolView)
    ensures
        limit_target(v, p) matches Some(Some((lower, upper))) ==> ({
            let below = p.tick / v.spacing * v.spacing;
            let t = v.params.limit_threshold as int;
            let a = (within_ticks(below - t), within_ticks(below));
            let b = (within_ticks(below + v.spacing), within_ticks(below + v.spacing + t));
            let l = max_liquidity(p.price, lower, upper, v.idle0, v.idle1)->0;
            &&& lower < upper
            &&& (lower, upper) == a || (lower, upper) == b
            &&& a.0 < a.1 ==> l >= max_liquidity(p.price, a.0, a.1, v.idle0, v.idle1)->0
            &&& b.0 < b.1 ==> l >= max_liquidity(p.price, b.0, b.1, v.idle0, v.idle1)->0
        }),
{
    reveal(limit_target);
}

} // verus!
