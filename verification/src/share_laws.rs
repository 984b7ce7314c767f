//! What a share of the vault, a range that is unwound and liquidity that is bought come to.
use crate::arith::{p128, p255, p256, p96, wrap_signed_facts};
use crate::debt_laws::{floor_facts, small};
use crate::fee_laws::change_books_what_was_earned;
use crate::full_math::floor_mul_div;
use crate::pool_model::PoolView;
use crate::position_manager::{position_at, position_key};
use crate::swap_laws::{amounts_are_exact, p160, rounding_gap};
use crate::tick_math::{ratio_at, ratio_increases};
use crate::vault_math::{
    capped_liquidity, liquidity0, liquidity1, max_liquidity, one_wad, range_amounts, stable_value,
};
use crate::vault_model::{
    burned_range, deployed, manager, minted_range, minted_share, pro_rata_deposited, pro_rata_terms,
    redeemed, share_burned, topped_up, totals, unwound, unwound_slot, Minting, RangeView, Slot,
    Unwinding, VaultView,
};
use vstd::prelude::*;

verus! {

// ── shares ──

/// A range of which some shares were redeemed: the same ticks, and the part of its
/// liquidity that the shares are of all, rounded down, gone.
pub open spec fn gave_part(r: Option<RangeView>, x: Option<RangeView>, shares: int, supply: int) -> bool {
    match (r, x) {
        (Some(a), Some(b)) => {
            let gone = a.liquidity - b.liquidity;
            &&& b.lower == a.lower && b.upper == a.upper
            &&& gone * supply <= a.liquidity * shares
            &&& a.liquidity * shares < (gone + 1) * supply
        },
        (None, None) => true,
        _ => false,
    }
}

/// Liquidity of a range that fits.
pub open spec fn fits(r: Option<RangeView>) -> bool {
    r matches Some(x) ==> 0 <= x.liquidity < p128()
}

#[verifier::rlimit(30)]
proof fn burning_gives_part(
    v: VaultView,
    p: PoolView,
    slot: Slot,
    shares: int,
    supply: int,
    out: (int, int),
)
    requires
        0 < shares <= supply < p128(),
        fits(v.range(slot)),
    ensures
        share_burned(v, p, slot, shares, supply, out) matches Some((w, q, o)) ==> {
            &&& gave_part(v.range(slot), w.range(slot), shares, supply)
            &&& slot != Slot::Wide ==> w.wide == v.wide
            &&& slot != Slot::Base ==> w.base == v.base
            &&& slot != Slot::Limit ==> w.limit == v.limit
            &&& w.supply == v.supply && w.debt == v.debt
            &&& q.price == p.price
        },
{
    reveal(share_burned);
    reveal(burned_range);
    if let Some(r) = v.range(slot) {
        assert(0 <= r.liquidity * shares <= r.liquidity * supply) by (nonlinear_arith)
            requires
                0 <= r.liquidity,
                0 < shares <= supply,
        ;
        assert(r.liquidity * supply < (r.liquidity + 1) * supply) by (nonlinear_arith)
            requires
                supply > 0,
        ;
        floor_facts(r.liquidity, shares, supply, r.liquidity + 1);
        let l = floor_mul_div(r.liquidity, shares, supply);
        small(r.liquidity - l);
        assert(r.liquidity - (r.liquidity - l) == l);
        if r.liquidity == 0 {
            assert(r.liquidity * shares == 0);
        }
    }
}

/// Redeeming shares takes their part of every range, lowers the number of shares by them and
/// leaves the debt and the price alone.
pub proof fn redemption_takes_its_part(v: VaultView, p: PoolView, shares: int)
    requires
        0 < shares <= v.supply < p128(),
        fits(v.wide),
        fits(v.base),
        fits(v.limit),
    ensures
        redeemed(v, p, shares) matches Some((w, q, out)) ==> {
            &&& w.supply == v.supply - shares
            &&& w.debt == v.debt
            &&& q.price == p.price
            &&& gave_part(v.wide, w.wide, shares, v.supply)
            &&& gave_part(v.base, w.base, shares, v.supply)
            &&& gave_part(v.limit, w.limit, shares, v.supply)
        },
{
    let s = v.supply;
    small(s - shares);
    let w = VaultView { supply: s - shares, ..v };
    let out = (floor_mul_div(v.idle0, shares, s), floor_mul_div(v.idle1, shares, s));
    burning_gives_part(w, p, Slot::Wide, shares, s, out);
    if let Some((v1, p1, o1)) = share_burned(w, p, Slot::Wide, shares, s, out) {
        burning_gives_part(v1, p1, Slot::Base, shares, s, o1);
        if let Some((v2, p2, o2)) = share_burned(v1, p1, Slot::Base, shares, s, o1) {
            burning_gives_part(v2, p2, Slot::Limit, shares, s, o2);
        }
    }
}

/// Redeemed shares get their part of what is idle, and of each range what its burned
/// liquidity gave and their part of the fees collected with it: no less than the part of
/// what is idle alone where the ranges are empty.
pub proof fn redemption_pays_idle_part(v: VaultView, p: PoolView, shares: int)
    requires
        0 < shares <= v.supply < p128(),
        0 <= v.idle0 < p128(),
        0 <= v.idle1 < p128(),
        v.wide matches Some(r) ==> r.liquidity == 0,
        v.base matches Some(r) ==> r.liquidity == 0,
        v.limit matches Some(r) ==> r.liquidity == 0,
    ensures
        redeemed(v, p, shares) matches Some((w, q, out)) && {
            &&& out.0 * v.supply <= v.idle0 * shares && v.idle0 * shares < (out.0 + 1) * v.supply
            &&& out.1 * v.supply <= v.idle1 * shares && v.idle1 * shares < (out.1 + 1) * v.supply
            &&& w.idle0 == v.idle0 - out.0
            &&& w.idle1 == v.idle1 - out.1
            &&& q == p
        },
{
    reveal(share_burned);
    let s = v.supply;
    assert(0 <= v.idle0 * shares <= v.idle0 * s && v.idle0 * s < (v.idle0 + 1) * s && 0 <= v.idle1
        * shares <= v.idle1 * s && v.idle1 * s < (v.idle1 + 1) * s) by (nonlinear_arith)
        requires
            0 <= v.idle0,
            0 <= v.idle1,
            0 < shares <= s,
    ;
    floor_facts(v.idle0, shares, s, v.idle0 + 1);
    floor_facts(v.idle1, shares, s, v.idle1 + 1);
    small(v.idle0 - floor_mul_div(v.idle0, shares, s));
    small(v.idle1 - floor_mul_div(v.idle1, shares, s));
}

// ── unwinding ──

/// Whether a range holds liquidity.
pub open spec fn holds(r: Option<RangeView>) -> bool {
    r matches Some(x) && x.liquidity != 0
}

/// A range of which a value was wanted: the same ticks, and all of its liquidity gone where
/// it is worth no more than that, or else the part that is, rounded down. One of no worth
/// stays.
pub open spec fn gave_value(
    r: Option<RangeView>,
    x: Option<RangeView>,
    worth: int,
    wanted: int,
) -> bool {
    match (r, x) {
        (Some(a), Some(b)) => {
            let gone = a.liquidity - b.liquidity;
            &&& b.lower == a.lower && b.upper == a.upper
            &&& worth == 0 ==> gone == 0
            &&& 0 < worth <= wanted ==> b.liquidity == 0
            &&& worth > wanted ==> gone * worth <= a.liquidity * wanted && a.liquidity * wanted < (
            gone + 1) * worth
        },
        _ => false,
    }
}

#[verifier::rlimit(30)]
proof fn slot_gives_value(u: Unwinding, slot: Slot, price: int)
    requires
        holds(u.vault.range(slot)),
        fits(u.vault.range(slot)),
        0 < u.left < p128(),
    ensures
        unwound_slot(u, slot, price) matches Some(x) ==> ({
            let r = u.vault.range(slot)->0;
            let (a0, a1) = range_amounts(u.pool.price, r.lower, r.upper, r.liquidity, false)->0;
            let worth = stable_value(u.vault.vol0(), a0, a1, price);
            &&& gave_value(u.vault.range(slot), x.vault.range(slot), worth, u.left)
            &&& slot != Slot::Wide ==> x.vault.wide == u.vault.wide
            &&& slot != Slot::Base ==> x.vault.base == u.vault.base
            &&& slot != Slot::Limit ==> x.vault.limit == u.vault.limit
        }),
{
    reveal(unwound_slot);
    reveal(burned_range);
    let r = u.vault.range(slot)->0;
    if let Some((a0, a1)) = range_amounts(u.pool.price, r.lower, r.upper, r.liquidity, false) {
        let worth = stable_value(u.vault.vol0(), a0, a1, price);
        small(0);
        if worth > u.left {
            assert(0 <= r.liquidity * u.left < r.liquidity * worth) by (nonlinear_arith)
                requires
                    0 < r.liquidity,
                    0 < u.left < worth,
            ;
            floor_facts(r.liquidity, u.left, worth, r.liquidity);
            let l = floor_mul_div(r.liquidity, u.left, worth);
            small(r.liquidity - l);
            assert(r.liquidity - (r.liquidity - l) == l);
        }
    }
}

proof fn empty_slot_stays(u: Unwinding, slot: Slot, price: int)
    requires
        !holds(u.vault.range(slot)),
    ensures
        unwound_slot(u, slot, price) == Some(u),
{
    reveal(unwound_slot);
}

/// Ranges are unwound for a value in their order: the limit range is asked first; where it
/// holds nothing, the base range; where neither does, the wide one. The first that holds
/// anything gives up what the value is worth of it.
pub proof fn first_range_gives_value(v: VaultView, p: PoolView, target: int, price: int, slot: Slot)
    requires
        0 < target < p128(),
        holds(v.range(slot)),
        fits(v.range(slot)),
        slot != Slot::Limit ==> !holds(v.limit),
        slot == Slot::Wide ==> !holds(v.base),
    ensures
        unwound(v, p, target, price) matches Some(u) ==> ({
            let r = v.range(slot)->0;
            let (a0, a1) = range_amounts(p.price, r.lower, r.upper, r.liquidity, false)->0;
            gave_value(
                v.range(slot),
                u.vault.range(slot),
                stable_value(v.vol0(), a0, a1, price),
                target,
            )
        }),
{
    let u = Unwinding { vault: v, pool: p, left: target, out0: 0, out1: 0 };
    if slot == Slot::Limit {
        slot_gives_value(u, Slot::Limit, price);
        if let Some(u1) = unwound_slot(u, Slot::Limit, price) {
            other_slots_stay(u1, Slot::Base, price);
            if let Some(u2) = unwound_slot(u1, Slot::Base, price) {
                other_slots_stay(u2, Slot::Wide, price);
            }
        }
    } else {
        empty_slot_stays(u, Slot::Limit, price);
        if slot == Slot::Base {
            slot_gives_value(u, Slot::Base, price);
            if let Some(u2) = unwound_slot(u, Slot::Base, price) {
                other_slots_stay(u2, Slot::Wide, price);
            }
        } else {
            empty_slot_stays(u, Slot::Base, price);
            slot_gives_value(u, Slot::Wide, price);
        }
    }
}

proof fn other_slots_stay(u: Unwinding, slot: Slot, price: int)
    ensures
        unwound_slot(u, slot, price) matches Some(x) ==> {
            &&& slot != Slot::Wide ==> x.vault.wide == u.vault.wide
            &&& slot != Slot::Base ==> x.vault.base == u.vault.base
            &&& slot != Slot::Limit ==> x.vault.limit == u.vault.limit
        },
{
    reveal(unwound_slot);
    reveal(burned_range);
}

// ── liquidity ──

/// The liquidity that token 1 gives between two prices is the most that it pays for.
pub proof fn token1_buys_liquidity(pa: int, pb: int, amount: int)
    requires
        0 < pa < pb < p160(),
        0 <= amount < p128(),
    ensures
        ({
            let l = liquidity1(pa, pb, amount);
            &&& 0 <= l
            &&& l * (pb - pa) <= amount * p96()
            &&& amount * p96() < (l + 1) * (pb - pa)
        }),
{
    assert(amount * p96() < p256() * (pb - pa)) by (nonlinear_arith)
        requires
            0 <= amount < p128(),
            pb - pa >= 1,
    ;
    floor_facts(amount, p96(), pb - pa, p256());
}

/// The liquidity that token 0 gives between two prices is the most that it pays for, up to
/// one unit of the product of the prices over 2^96.
pub proof fn token0_buys_liquidity(pa: int, pb: int, amount: int)
    requires
        0 < pa < pb < p160(),
        0 <= amount < p128(),
        amount * (pa * pb) < p128() * (p96() * (pb - pa)),
    ensures
        ({
            let l = liquidity0(pa, pb, amount);
            let n = amount * (pa * pb);
            &&& 0 <= l < p128()
            &&& l * p96() * (pb - pa) <= n
            &&& n < ((l + 1) * (pb - pa) + amount) * p96()
        }),
{
    let d = pb - pa;
    let m = pa * pb;
    assert(0 < m < p256() * p96()) by (nonlinear_arith)
        requires
            m == pa * pb,
            0 < pa < p160(),
            0 < pb < p160(),
    ;
    floor_facts(pa, pb, p96(), p256());
    let k = floor_mul_div(pa, pb, p96());
    assert(amount * k < p128() * d) by (nonlinear_arith)
        requires
            k * p96() <= m,
            amount * m < p128() * (p96() * d),
            0 <= amount,
    ;
    floor_facts(amount, k, d, p128());
    let l = floor_mul_div(amount, k, d);
    assert(l * p96() * d <= amount * m) by (nonlinear_arith)
        requires
            l * d <= amount * k,
            k * p96() <= m,
            0 <= amount,
    ;
    assert(amount * m <= (amount * k + amount) * p96()) by (nonlinear_arith)
        requires
            m <= (k + 1) * p96(),
            0 <= amount,
    ;
    assert((amount * k + amount) * p96() < ((l + 1) * d + amount) * p96());
}

/// What two amounts buy in a range never costs more of either token than there is.
#[verifier::rlimit(30)]
pub proof fn bought_liquidity_is_paid_for(price: int, lower: int, upper: int, a0: int, a1: int)
    requires
        -887_272 <= lower < upper <= 887_272,
        0 < price < p160(),
        0 <= a0 < p128(),
        0 <= a1 < p128(),
        ({
            let pa = ratio_at(lower);
            let pb = ratio_at(upper);
            let from = if price <= pa {
                pa
            } else {
                price
            };
            let to = if price >= pb {
                pb
            } else {
                price
            };
            &&& price < pb ==> a0 * (from * pb) < p128() * (p96() * (pb - from))
            &&& price > pa ==> a1 * p96() < p128() * (to - pa)
        }),
    ensures
        max_liquidity(price, lower, upper, a0, a1) matches Some(l) && 0 <= l < p128() && (
        range_amounts(price, lower, upper, l, true) matches Some((n0, n1)) && n0 <= a0 && n1 <= a1),
{
    crate::tick_math::ratio_ends();
    crate::tick_math::ratio_mono(-887_272, lower);
    crate::tick_math::ratio_mono(upper, 887_272);
    ratio_increases(lower, upper);
    let pa = ratio_at(lower);
    let pb = ratio_at(upper);
    let l = max_liquidity(price, lower, upper, a0, a1)->0;
    if price < pb {
        let from = if price <= pa {
            pa
        } else {
            price
        };
        token0_buys_liquidity(from, pb, a0);
        let most = liquidity0(from, pb, a0);
        if price > pa {
            token1_bounded(pa, price, a1);
        }
        assert(l <= most);
        amounts_are_exact(from, pb, l);
        rounding_gap(from, pb, l);
        let n0 = crate::sqrt_price_math::amount0_delta(from, pb, l, true)->0;
        let m = from * pb;
        assert(l * p96() * (pb - from) <= most * p96() * (pb - from)) by (nonlinear_arith)
            requires
                l <= most,
                pb - from > 0,
        ;
        assert(m > 0) by (nonlinear_arith)
            requires
                m == from * pb,
                from > 0,
                pb > 0,
        ;
        assert(n0 <= a0) by (nonlinear_arith)
            requires
                (n0 - 1) * m < a0 * m,
                m > 0,
        ;
    }
    if price > pa {
        let to = if price >= pb {
            pb
        } else {
            price
        };
        token1_bounded(pa, to, a1);
        let most = liquidity1(pa, to, a1);
        assert(l <= most);
        amounts_are_exact(pa, to, l);
        rounding_gap(pa, to, l);
        let n1 = crate::sqrt_price_math::amount1_delta(pa, to, l, true)->0;
        assert(l * (to - pa) <= most * (to - pa)) by (nonlinear_arith)
            requires
                l <= most,
                to - pa > 0,
        ;
        assert(n1 <= a1);
    }
}

proof fn token1_bounded(pa: int, pb: int, amount: int)
    requires
        0 < pa < pb < p160(),
        0 <= amount < p128(),
        amount * p96() < p128() * (pb - pa),
    ensures
        0 <= liquidity1(pa, pb, amount) < p128(),
        liquidity1(pa, pb, amount) * (pb - pa) <= amount * p96(),
{
    floor_facts(amount, p96(), pb - pa, p128());
}

/// Capped liquidity is no more than what was asked for, and all of that where the tokens for
/// it are at hand.
pub proof fn cap_lowers_liquidity(price: int, lower: int, upper: int, raw: int, i0: int, i1: int)
    requires
        0 <= raw < p128(),
        0 <= i0,
        0 <= i1,
    ensures
        capped_liquidity(price, lower, upper, raw, i0, i1) matches Some(l) ==> {
            &&& 0 <= l <= raw
            &&& raw > 0 && (range_amounts(price, lower, upper, raw, true) matches Some((n0, n1))
                && n0 <= i0 && n1 <= i1) ==> l == raw
        },
{
    if raw != 0 {
        if let Some((n0, n1)) = range_amounts(price, lower, upper, raw, true) {
            let s0 = if n0 > i0 {
                crate::vault_math::smaller(one_wad(), floor_mul_div(one_wad(), i0, n0))
            } else {
                one_wad()
            };
            let s1 = if n1 > i1 {
                crate::vault_math::smaller(s0, floor_mul_div(one_wad(), i1, n1))
            } else {
                s0
            };
            assert(0 <= s1 <= one_wad());
            assert(0 <= raw * s1 <= raw * one_wad()) by (nonlinear_arith)
                requires
                    0 <= raw,
                    0 <= s1 <= one_wad(),
            ;
            floor_facts(raw, s1, one_wad(), raw + 1);
            if s1 == one_wad() {
                assert(raw * s1 / one_wad() == raw) by (nonlinear_arith)
                    requires
                        s1 == one_wad(),
                ;
            }
        }
    }
}

// ── single ranges ──

/// Minting in a range pays what it takes from what is idle, as far as that goes, and gives
/// the liquidity to the vault's position there.
pub proof fn minting_pays_from_idle(v: VaultView, p: PoolView, lower: int, upper: int, l: int)
    requires
        0 < l < p255(),
    ensures
        minted_range(v, p, lower, upper, l) matches Some((w, q, u0, u1)) ==> {
            let key = position_key(manager(), lower, upper);
            &&& 0 <= u0 && 0 <= u1
            &&& u0 <= v.idle0 ==> w.idle0 == v.idle0 - u0
            &&& u0 >= v.idle0 ==> w.idle0 == 0
            &&& u1 <= v.idle1 ==> w.idle1 == v.idle1 - u1
            &&& u1 >= v.idle1 ==> w.idle1 == 0
            &&& w == (VaultView { idle0: w.idle0, idle1: w.idle1, ..v })
            &&& position_at(q.positions, key).liquidity == position_at(p.positions, key).liquidity
                + l
        },
{
    reveal(minted_range);
    wrap_signed_facts(l);
    change_books_what_was_earned(p, manager(), lower, upper, l);
}

/// Burning in a range takes the liquidity from the vault's position there and adds all that
/// is collected to what is idle, with one unit more of a token that the burn gave while the
/// price was not beyond the range on that token's side.
pub proof fn burning_pays_into_idle(v: VaultView, p: PoolView, lower: int, upper: int, l: int)
    ensures
        burned_range(v, p, lower, upper, l) matches Some((w, q, b, c)) ==> {
            let one0: int = if b.0 > 0 && p.tick < upper {
                1
            } else {
                0
            };
            let one1: int = if b.1 > 0 && p.tick >= lower {
                1
            } else {
                0
            };
            &&& w == (VaultView { idle0: w.idle0, idle1: w.idle1, ..v })
            &&& 0 <= v.idle0 && 0 <= c.0 && v.idle0 + c.0 + 1 < p256() ==> w.idle0 == v.idle0 + c.0
                + one0
            &&& 0 <= v.idle1 && 0 <= c.1 && v.idle1 + c.1 + 1 < p256() ==> w.idle1 == v.idle1 + c.1
                + one1
        },
{
    reveal(burned_range);
    if let Some((w, q, b, c)) = burned_range(v, p, lower, upper, l) {
        if 0 <= v.idle0 && 0 <= c.0 && v.idle0 + c.0 + 1 < p256() {
            small(v.idle0 + c.0);
            small(v.idle0 + c.0 + 1);
        }
        if 0 <= v.idle1 && 0 <= c.1 && v.idle1 + c.1 + 1 < p256() {
            small(v.idle1 + c.1);
            small(v.idle1 + c.1 + 1);
        }
    }
}

// ── deploying ──

/// A range that was topped up: the same ticks and no less liquidity.
pub open spec fn topped(r: Option<RangeView>, x: Option<RangeView>) -> bool {
    match (r, x) {
        (Some(a), Some(b)) => b.lower == a.lower && b.upper == a.upper && b.liquidity
            >= a.liquidity,
        (None, None) => true,
        _ => false,
    }
}

/// Liquidity of a range and what amounts buy in it that fit together.
pub open spec fn room_for(r: Option<RangeView>, price: int, i0: int, i1: int) -> bool {
    r matches Some(x) ==> 0 <= x.liquidity < p128() && forall|f0: int, f1: int|
        0 <= f0 <= i0 && 0 <= f1 <= i1 ==> (#[trigger] max_liquidity(
            price,
            x.lower,
            x.upper,
            f0,
            f1,
        ) matches Some(m) ==> 0 <= m < p128())
}

#[verifier::rlimit(30)]
proof fn topping_up_adds(v: VaultView, p: PoolView, slot: Slot)
    requires
        0 <= v.idle0,
        0 <= v.idle1,
        room_for(v.range(slot), p.price, v.idle0, v.idle1),
    ensures
        topped_up(v, p, slot) matches Some((w, q)) ==> {
            &&& topped(v.range(slot), w.range(slot))
            &&& slot != Slot::Wide ==> w.wide == v.wide
            &&& slot != Slot::Base ==> w.base == v.base
            &&& slot != Slot::Limit ==> w.limit == v.limit
            &&& 0 <= w.idle0 <= v.idle0
            &&& 0 <= w.idle1 <= v.idle1
            &&& q.price == p.price
            &&& w.idle0 != v.idle0 || w.idle1 != v.idle1 ==> w.range(slot) != v.range(slot)
        },
{
    reveal(topped_up);
    reveal(minted_range);
    if let Some(r) = v.range(slot) {
        if let Some(l) = max_liquidity(p.price, r.lower, r.upper, v.idle0, v.idle1) {
            small(r.liquidity + l);
        }
    }
}

/// Deploying mints what is idle into the ranges as they stand: their ticks stay, their
/// liquidity only grows, and what is idle only shrinks. The base range comes first: where
/// nothing is idle after it, the others stay as they are.
#[verifier::rlimit(30)]
pub proof fn deploying_tops_up_ranges(v: VaultView, p: PoolView)
    requires
        0 <= v.idle0,
        0 <= v.idle1,
        room_for(v.base, p.price, v.idle0, v.idle1),
        room_for(v.wide, p.price, v.idle0, v.idle1),
        room_for(v.limit, p.price, v.idle0, v.idle1),
    ensures
        deployed(v, p) matches Some((w, q)) ==> {
            &&& topped(v.base, w.base)
            &&& topped(v.wide, w.wide)
            &&& topped(v.limit, w.limit)
            &&& 0 <= w.idle0 <= v.idle0
            &&& 0 <= w.idle1 <= v.idle1
            &&& v.idle0 == 0 && v.idle1 == 0 ==> w == v && q == p
            &&& v.base is None && v.wide is None && v.limit is None ==> w == v && q == p
            &&& w.base == v.base && w.wide == v.wide && w.limit == v.limit ==> w.idle0 == v.idle0
                && w.idle1 == v.idle1
            &&& (topped_up(v, p, Slot::Base) matches Some((x, u)) && x.idle0 == 0 && x.idle1 == 0)
                ==> w.wide == v.wide && w.limit == v.limit
        },
{
    topping_up_adds(v, p, Slot::Base);
    if let Some((v1, p1)) = topped_up(v, p, Slot::Base) {
        topping_up_adds(v1, p1, Slot::Wide);
        if let Some((v2, p2)) = topped_up(v1, p1, Slot::Wide) {
            topping_up_adds(v2, p2, Slot::Limit);
        }
    }
    reveal(topped_up);
}

// ── deposits in proportion ──

/// A range that a deposit went into: the same ticks, and more liquidity by no more than the
/// part that the new shares are of the old ones.
pub open spec fn took_part(r: Option<RangeView>, x: Option<RangeView>, shares: int, supply: int) -> bool {
    match (r, x) {
        (Some(a), Some(b)) => {
            let more = b.liquidity - a.liquidity;
            &&& b.lower == a.lower && b.upper == a.upper
            &&& 0 <= more
            &&& more * supply <= a.liquidity * shares
        },
        (None, None) => true,
        _ => false,
    }
}

#[verifier::spinoff_prover]
#[verifier::rlimit(30)]
proof fn share_takes_part(m: Minting, slot: Slot, shares: int, supply: int)
    requires
        0 <= shares < p128(),
        0 < supply < p128(),
        fits(m.vault.range(slot)),
        0 <= m.left0,
        0 <= m.left1,
        room_for(m.vault.range(slot), m.pool.price, m.left0, m.left1),
    ensures
        minted_share(m, slot, shares, supply) matches Some(n) ==> {
            &&& took_part(m.vault.range(slot), n.vault.range(slot), shares, supply)
            &&& slot != Slot::Wide ==> n.vault.wide == m.vault.wide
            &&& slot != Slot::Base ==> n.vault.base == m.vault.base
            &&& slot != Slot::Limit ==> n.vault.limit == m.vault.limit
            &&& n.pool.price == m.pool.price
            &&& 0 <= n.left0 <= m.left0
            &&& 0 <= n.left1 <= m.left1
            &&& n.vault.supply == m.vault.supply
        },
{
    reveal(minted_share);
    reveal(minted_range);
    no_part(m.vault.range(slot), shares, supply);
    if let Some(r) = m.vault.range(slot) {
        assert(0 <= r.liquidity * shares < p256() * supply) by (nonlinear_arith)
            requires
                0 <= r.liquidity < p128(),
                0 <= shares < p128(),
                supply >= 1,
        ;
        floor_facts(r.liquidity, shares, supply, p256());
        let part = floor_mul_div(r.liquidity, shares, supply);
        if let Some(most) = max_liquidity(m.pool.price, r.lower, r.upper, m.left0, m.left1) {
            let l = crate::vault_math::smaller(part, most);
            small(r.liquidity + l);
            assert(l * supply <= part * supply) by (nonlinear_arith)
                requires
                    l <= part,
                    supply > 0,
            ;
            let b = RangeView { liquidity: r.liquidity + l, ..r };
            assert(b.liquidity - r.liquidity == l);
            assert(0 <= l ==> took_part(Some(r), Some(b), shares, supply));
        }
    }
}

/// A deposit in proportion gives every range no more than the part that its shares are of
/// those before, and leaves the debt and the price alone.
#[verifier::rlimit(30)]
pub proof fn deposit_adds_in_proportion(v: VaultView, p: PoolView, d0: int, d1: int)
    requires
        0 < v.supply < p128(),
        fits(v.wide),
        fits(v.base),
        fits(v.limit),
        totals(v, p, true) matches Some((t0, t1)) && (pro_rata_terms(t0, t1, v.supply, d0, d1) matches Some(
            (a0, a1, shares),
        ) ==> {
            &&& 0 <= shares && v.supply + shares < p128()
            &&& 0 <= a0 && 0 <= a1
            &&& room_for(v.wide, p.price, a0, a1)
            &&& room_for(v.base, p.price, a0, a1)
            &&& room_for(v.limit, p.price, a0, a1)
        }),
    ensures
        pro_rata_deposited(v, p, d0, d1) matches Some((w, q, a0, a1)) ==> {
            let shares = w.supply - v.supply;
            &&& shares >= 0
            &&& shares == 0 ==> w == v && q == p && a0 == 0 && a1 == 0
            &&& took_part(v.wide, w.wide, shares, v.supply)
            &&& took_part(v.base, w.base, shares, v.supply)
            &&& took_part(v.limit, w.limit, shares, v.supply)
            &&& q.price == p.price
        },
{
    reveal(pro_rata_deposited);
    let (t0, t1) = totals(v, p, true)->0;
    if let Some((a0, a1, shares)) = pro_rata_terms(t0, t1, v.supply, d0, d1) {
        let s = v.supply;
        small(s + shares);
        let m = Minting { vault: v.plus_idle(a0, a1), pool: p, left0: a0, left1: a1 };
        share_takes_part(m, Slot::Wide, shares, s);
        if let Some(m1) = minted_share(m, Slot::Wide, shares, s) {
            share_takes_part(m1, Slot::Base, shares, s);
            if let Some(m2) = minted_share(m1, Slot::Base, shares, s) {
                share_takes_part(m2, Slot::Limit, shares, s);
            }
        }
        if shares == 0 {
            no_part(v.wide, 0, s);
            no_part(v.base, 0, s);
            no_part(v.limit, 0, s);
        }
    }
}

/// A range that nothing was added to took no more than its part.
proof fn no_part(r: Option<RangeView>, shares: int, supply: int)
    requires
        fits(r),
        0 <= shares,
    ensures
        took_part(r, r, shares, supply),
{
    if let Some(x) = r {
        assert((x.liquidity - x.liquidity) * supply == 0 && x.liquidity * shares >= 0)
            by (nonlinear_arith)
            requires
                0 <= x.liquidity,
                0 <= shares,
        ;
    }
}

} // verus!
