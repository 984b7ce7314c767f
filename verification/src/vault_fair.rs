//! The value of a share of the vault, now and at the price at which both sides of the
//! holdings are worth the same.
use crate::core_pool::CorePool;
use crate::full_math::{floor_mul_div, mul_div};
use crate::pool_model::{tick_of, tick_of_unique, PoolView};
use crate::position::Position;
use crate::position_manager::{position_at, position_key};
use crate::sqrt_price_math::opt;
use crate::tick_math::{get_sqrt_ratio_at_tick, get_tick_at_sqrt_ratio, ratio_at};
use crate::types::{
    abs, max_ratio, max_sqrt_ratio, min_ratio, min_sqrt_ratio, MAX_TICK, MIN_TICK, U256,
};
use crate::vault::{manager_name, price_choice, range_view, Vault, VaultPosition};
use crate::vault_liquidity::{no_less, no_more};
use crate::vault_math::{
    amounts_for_liquidity_round, distance, larger, one_wad, opt_pair, pool_price, price_of,
    range_amounts, roles, sat_sub, saturating_sub, smaller, stable_value, to_stable,
    value_in_stable, volatile_to_stable, wad, wadd,
};
use crate::vault_model::{manager, price_or, RangeView, VaultView};
use vstd::prelude::*;

verus! {

/// A range of the vault with what the pool records for it.
pub ghost struct HeldView {
    pub lower: int,
    pub upper: int,
    pub liquidity: int,
    pub owed0: int,
    pub owed1: int,
}

/// What the pool records for a range.
#[verifier::opaque]
pub open spec fn held(p: PoolView, r: Option<RangeView>) -> Option<HeldView> {
    match r {
        Some(x) => {
            let pos = position_at(p.positions, position_key(manager(), x.lower, x.upper));
            Some(
                HeldView {
                    lower: x.lower,
                    upper: x.upper,
                    liquidity: pos.liquidity,
                    owed0: pos.owed0,
                    owed1: pos.owed1,
                },
            )
        },
        None => None,
    }
}

/// All that a share stands for: what the pool records for each range, and what is
/// idle.
pub ghost struct HoldingsView {
    pub vol0: bool,
    pub wide: Option<HeldView>,
    pub base: Option<HeldView>,
    pub limit: Option<HeldView>,
    pub idle0: int,
    pub idle1: int,
}

pub open spec fn holdings(v: VaultView, p: PoolView) -> HoldingsView {
    HoldingsView {
        vol0: v.vol0(),
        wide: held(p, v.wide),
        base: held(p, v.base),
        limit: held(p, v.limit),
        idle0: v.idle0,
        idle1: v.idle1,
    }
}

pub open spec fn is_active(h: Option<HeldView>) -> bool {
    match h {
        Some(x) => x.liquidity != 0,
        None => false,
    }
}

/// Amounts with those of a range at a price added.
pub open spec fn with_held(t: Option<(int, int)>, h: Option<HeldView>, sqrt: int) -> Option<
    (int, int),
> {
    match (t, h) {
        (Some(s), Some(x)) => if x.liquidity == 0 && x.owed0 == 0 && x.owed1 == 0 {
            Some(s)
        } else {
            match range_amounts(sqrt, x.lower, x.upper, x.liquidity, false) {
                Some((a0, a1)) => Some(
                    (wadd(wadd(s.0, a0), x.owed0), wadd(wadd(s.1, a1), x.owed1)),
                ),
                None => None,
            }
        },
        (Some(s), None) => Some(s),
        (None, _) => None,
    }
}

/// The amounts held at a price.
pub open spec fn held_at(h: HoldingsView, sqrt: int) -> Option<(int, int)> {
    with_held(
        with_held(with_held(Some((h.idle0, h.idle1)), h.wide, sqrt), h.base, sqrt),
        h.limit,
        sqrt,
    )
}

/// The share of the volatile side in the value at a price.
#[verifier::opaque]
pub open spec fn volatile_share(h: HoldingsView, sqrt: int) -> Option<int> {
    match held_at(h, sqrt) {
        Some((t0, t1)) => {
            let price = price_of(sqrt);
            let total = stable_value(h.vol0, t0, t1, price);
            let volatile = if h.vol0 {
                t0
            } else {
                t1
            };
            if total == 0 {
                Some(0)
            } else {
                Some(floor_mul_div(to_stable(h.vol0, volatile, price), one_wad(), total))
            }
        },
        None => None,
    }
}

/// One half, and how close to it is close enough.
pub open spec fn even_share() -> int {
    500_000_000_000_000_000
}

pub open spec fn share_tolerance() -> int {
    1_000_000_000_000_000
}

/// A bisection between two ticks, halved downward, of up to `n` steps, for the price at which the
/// share is even. The result is the best price found and how far off its share is.
pub open spec fn even_price(
    h: HoldingsView,
    low: int,
    high: int,
    best: int,
    off: int,
    n: nat,
) -> Option<(int, int)>
    decreases n,
{
    let mid = (low + high) / 2;
    if n == 0 || mid <= low || mid >= high {
        Some((best, off))
    } else {
        match volatile_share(h, ratio_at(mid)) {
            Some(share) => {
                let d = abs(share - even_share());
                let (b, o) = if d < off {
                    (ratio_at(mid), d)
                } else {
                    (best, off)
                };
                if d < share_tolerance() {
                    Some((b, o))
                } else if (if h.vol0 {
                    share > even_share()
                } else {
                    share < even_share()
                }) {
                    even_price(h, mid, high, b, o, (n - 1) as nat)
                } else {
                    even_price(h, low, mid, b, o, (n - 1) as nat)
                }
            },
            None => None,
        }
    }
}

/// The lowest tick of the ranges.
pub open spec fn lowest(a: Option<int>, h: Option<HeldView>) -> Option<int> {
    match (a, h) {
        (Some(x), Some(y)) => Some(smaller(x, y.lower)),
        (None, Some(y)) => Some(y.lower),
        (_, None) => a,
    }
}

/// The highest tick of the ranges.
pub open spec fn highest(a: Option<int>, h: Option<HeldView>) -> Option<int> {
    match (a, h) {
        (Some(x), Some(y)) => Some(larger(x, y.upper)),
        (None, Some(y)) => Some(y.upper),
        (_, None) => a,
    }
}

pub open spec fn lowest_tick(h: HoldingsView) -> Option<int> {
    lowest(lowest(lowest(None, h.wide), h.base), h.limit)
}

pub open spec fn highest_tick(h: HoldingsView) -> Option<int> {
    highest(highest(highest(None, h.wide), h.base), h.limit)
}

/// The square root price at which both sides are worth the same, as far as the search
/// below and above the current price finds it.
#[verifier::opaque]
pub open spec fn fair_sqrt(h: HoldingsView, sqrt: int, low: int, high: int) -> Option<int> {
    if min_ratio() <= sqrt < max_ratio() {
        match volatile_share(h, sqrt) {
            Some(share) => {
                let tick = tick_of(sqrt);
                let off = abs(share - even_share());
                match (
                    even_price(h, larger(-MAX_TICK as int, low - 5000), tick, sqrt, off, 30),
                    even_price(h, tick, smaller(MAX_TICK as int, high + 5000), sqrt, off, 30),
                ) {
                    (Some((lo, lo_off)), Some((hi, hi_off))) => if lo_off <= hi_off {
                        Some(lo)
                    } else {
                        Some(hi)
                    },
                    _ => None,
                }
            },
            None => None,
        }
    } else {
        None
    }
}

/// The value of a share now, its value where both sides are even, and the price there.
pub open spec fn share_values(v: VaultView, p: PoolView, nav: int, o: Option<int>) -> Option<
    (int, int, int),
> {
    if v.supply == 0 {
        Some((0, 0, 0))
    } else {
        let h = holdings(v, p);
        let now = floor_mul_div(nav, one_wad(), v.supply);
        if !is_active(h.wide) && !is_active(h.base) && !is_active(h.limit) {
            Some((now, now, price_of(price_or(p, o))))
        } else {
            match (lowest_tick(h), highest_tick(h)) {
                (Some(low), Some(high)) => match fair_sqrt(h, p.price, low, high) {
                    Some(s) => match held_at(h, s) {
                        Some((t0, t1)) => {
                            let price = price_of(s);
                            let net = sat_sub(stable_value(h.vol0, t0, t1, price), v.debt);
                            Some((now, floor_mul_div(net, one_wad(), v.supply), price))
                        },
                        None => None,
                    },
                    None => None,
                },
                _ => None,
            }
        }
    }
}

#[derive(Clone, Copy)]
struct Held {
    lower: i32,
    upper: i32,
    liquidity: U256,
    owed0: U256,
    owed1: U256,
}

impl View for Held {
    type V = HeldView;

    closed spec fn view(&self) -> HeldView {
        HeldView {
            lower: self.lower as int,
            upper: self.upper as int,
            liquidity: self.liquidity@,
            owed0: self.owed0@,
            owed1: self.owed1@,
        }
    }
}

spec fn held_view(h: Option<Held>) -> Option<HeldView> {
    match h {
        Some(x) => Some(x@),
        None => None,
    }
}

fn held_in(pool: &CorePool, range: Option<VaultPosition>) -> (r: Option<Held>)
    requires
        pool.wf(),
    ensures
        held_view(r) == held(pool@, range_view(range)),
{
    reveal(held);
    match range {
        Some(p) => {
            let pos: Position = pool.position_manager().get_position_readonly(
                manager_name(),
                p.tick_lower,
                p.tick_upper,
            );
            Some(
                Held {
                    lower: p.tick_lower,
                    upper: p.tick_upper,
                    liquidity: pos.liquidity,
                    owed0: pos.tokens_owed_0,
                    owed1: pos.tokens_owed_1,
                },
            )
        },
        None => None,
    }
}

fn active(h: &Option<Held>) -> (r: bool)
    ensures
        r == is_active(held_view(*h)),
{
    match h {
        Some(x) => !x.liquidity.is_zero(),
        None => false,
    }
}

fn add_held(t: Option<(U256, U256)>, h: &Option<Held>, sqrt: U256) -> (r: Option<(U256, U256)>)
    ensures
        opt_pair(r) == with_held(opt_pair(t), held_view(*h), sqrt@),
{
    let s: (U256, U256) = match t {
        Some(x) => x,
        None => return None,
    };
    match h {
        Some(x) => {
            if x.liquidity.is_zero() && x.owed0.is_zero() && x.owed1.is_zero() {
                return Some(s);
            }
            match amounts_for_liquidity_round(sqrt, x.lower, x.upper, x.liquidity, false) {
                Some((a0, a1)) => Some((s.0 + a0 + x.owed0, s.1 + a1 + x.owed1)),
                None => None,
            }
        },
        None => Some(s),
    }
}

fn lower_of(a: Option<i32>, h: &Option<Held>) -> (r: Option<i32>)
    ensures
        lowest(tick_view(a), held_view(*h)) == tick_view(r),
{
    match (a, h) {
        (Some(x), Some(y)) => if x <= y.lower {
            Some(x)
        } else {
            Some(y.lower)
        },
        (None, Some(y)) => Some(y.lower),
        (_, None) => a,
    }
}

fn upper_of(a: Option<i32>, h: &Option<Held>) -> (r: Option<i32>)
    ensures
        highest(tick_view(a), held_view(*h)) == tick_view(r),
{
    match (a, h) {
        (Some(x), Some(y)) => if x >= y.upper {
            Some(x)
        } else {
            Some(y.upper)
        },
        (None, Some(y)) => Some(y.upper),
        (_, None) => a,
    }
}

spec fn tick_view(t: Option<i32>) -> Option<int> {
    match t {
        Some(x) => Some(x as int),
        None => None,
    }
}

struct Holdings {
    vol0: bool,
    wide: Option<Held>,
    base: Option<Held>,
    limit: Option<Held>,
    idle0: U256,
    idle1: U256,
}

impl View for Holdings {
    type V = HoldingsView;

    closed spec fn view(&self) -> HoldingsView {
        HoldingsView {
            vol0: self.vol0,
            wide: held_view(self.wide),
            base: held_view(self.base),
            limit: held_view(self.limit),
            idle0: self.idle0@,
            idle1: self.idle1@,
        }
    }
}

/// The middle of two ticks, rounded down.
fn middle(low: i64, high: i64) -> (r: i64)
    requires
        -0x1_0000_0000 < low < 0x1_0000_0000,
        -0x1_0000_0000 < high < 0x1_0000_0000,
    ensures
        r == (low + high) / 2,
{
    let sum: i64 = low + high;
    if sum >= 0 {
        sum / 2
    } else {
        -((1 - sum) / 2)
    }
}

impl Holdings {
    fn amounts_at(&self, sqrt: U256) -> (r: Option<(U256, U256)>)
        ensures
            opt_pair(r) == held_at(self@, sqrt@),
    {
        add_held(
            add_held(add_held(Some((self.idle0, self.idle1)), &self.wide, sqrt), &self.base, sqrt),
            &self.limit,
            sqrt,
        )
    }

    fn volatile_share(&self, sqrt: U256) -> (r: Option<U256>)
        ensures
            opt(r) == volatile_share(self@, sqrt@),
    {
        reveal(volatile_share);
        let (t0, t1) = match self.amounts_at(sqrt) {
            Some(x) => x,
            None => return None,
        };
        let price: U256 = pool_price(sqrt);
        let total: U256 = value_in_stable(self.vol0, t0, t1, price);
        let (volatile, _) = roles(self.vol0, t0, t1);
        if total.is_zero() {
            return Some(U256::ZERO());
        }
        Some(mul_div(volatile_to_stable(self.vol0, volatile, price), wad(), total))
    }

    fn even_price(&self, lo: i64, hi: i64, init: U256, init_off: U256) -> (r: Option<(U256, U256)>)
        requires
            MIN_TICK <= lo < 0x1_0000_0000,
            -0x1_0000_0000 < hi <= MAX_TICK,
        ensures
            opt_pair(r) == even_price(self@, lo as int, hi as int, init@, init_off@, 30),
    {
        let mut best: U256 = init;
        let mut off: U256 = init_off;
        let mut low: i64 = lo;
        let mut high: i64 = hi;
        let mut left: u32 = 30;
        let half: U256 = U256::from_u128(500_000_000_000_000_000);
        let tolerance: U256 = U256::from_u128(1_000_000_000_000_000);
        while left > 0
            invariant
                half@ == even_share(),
                tolerance@ == share_tolerance(),
                MIN_TICK <= low < 0x1_0000_0000,
                -0x1_0000_0000 < high <= MAX_TICK,
                even_price(self@, lo as int, hi as int, init@, init_off@, 30) == even_price(
                    self@,
                    low as int,
                    high as int,
                    best@,
                    off@,
                    left as nat,
                ),
            decreases left,
        {
            let mid: i64 = middle(low, high);
            if mid <= low || mid >= high {
                return Some((best, off));
            }
            let sqrt: U256 = get_sqrt_ratio_at_tick(mid as i32);
            let share: U256 = match self.volatile_share(sqrt) {
                Some(x) => x,
                None => return None,
            };
            let d: U256 = distance(share, half);
            if d < off {
                off = d;
                best = sqrt;
            }
            if d < tolerance {
                return Some((best, off));
            }
            let higher: bool = if self.vol0 {
                share > half
            } else {
                share < half
            };
            if higher {
                low = mid;
            } else {
                high = mid;
            }
            left = left - 1;
        }
        Some((best, off))
    }

    fn fair_sqrt(&self, sqrt: U256, low: i32, high: i32) -> (r: Option<U256>)
        ensures
            opt(r) == fair_sqrt(self@, sqrt@, low as int, high as int),
    {
        reveal(fair_sqrt);
        if sqrt < min_sqrt_ratio() || sqrt >= max_sqrt_ratio() {
            return None;
        }
        let share: U256 = match self.volatile_share(sqrt) {
            Some(x) => x,
            None => return None,
        };
        let tick: i32 = get_tick_at_sqrt_ratio(sqrt);
        proof {
            tick_of_unique(sqrt@, tick as int);
        }
        let off: U256 = distance(share, U256::from_u128(500_000_000_000_000_000));
        let bottom: i64 = no_less(-(MAX_TICK as i64), low as i64 - 5000);
        let top: i64 = no_more(MAX_TICK as i64, high as i64 + 5000);
        let below: Option<(U256, U256)> = self.even_price(bottom, tick as i64, sqrt, off);
        let above: Option<(U256, U256)> = self.even_price(tick as i64, top, sqrt, off);
        match (below, above) {
            (Some((lo, lo_off)), Some((hi, hi_off))) => if lo_off <= hi_off {
                Some(lo)
            } else {
                Some(hi)
            },
            _ => None,
        }
    }
}

impl Vault {
    fn holdings(&self, pool: &CorePool) -> (r: Holdings)
        requires
            pool.wf(),
        ensures
            r@ == holdings(self@, pool@),
    {
        Holdings {
            vol0: self.pool_config.is_volatile_token0(),
            wide: held_in(pool, self.wide),
            base: held_in(pool, self.base),
            limit: held_in(pool, self.limit),
            idle0: self.idle0,
            idle1: self.idle1,
        }
    }

    /// As `compute_fundamental_pps`; `None` where an amount does not exist or the pool has
    /// no price.
    pub fn try_compute_fundamental_pps(
        &self,
        pool: &CorePool,
        current_nav: U256,
        override_sqrt: Option<U256>,
    ) -> (r: Option<(U256, U256, U256)>)
        requires
            pool.wf(),
        ensures
            share_values(self@, pool@, current_nav@, opt(override_sqrt)) == (match r {
                Some(x) => Some((x.0@, x.1@, x.2@)),
                None => None,
            }),
    {
        let supply: U256 = self.total_supply;
        if supply.is_zero() {
            return Some((U256::ZERO(), U256::ZERO(), U256::ZERO()));
        }
        let now: U256 = mul_div(current_nav, wad(), supply);
        let h: Holdings = self.holdings(pool);
        if !active(&h.wide) && !active(&h.base) && !active(&h.limit) {
            return Some((now, now, pool_price(price_choice(pool, override_sqrt))));
        }
        let low: i32 = match lower_of(lower_of(lower_of(None, &h.wide), &h.base), &h.limit) {
            Some(x) => x,
            None => return None,
        };
        let high: i32 = match upper_of(upper_of(upper_of(None, &h.wide), &h.base), &h.limit) {
            Some(x) => x,
            None => return None,
        };
        let sqrt: U256 = match h.fair_sqrt(pool.sqrt_price_x96(), low, high) {
            Some(x) => x,
            None => return None,
        };
        let (t0, t1) = match h.amounts_at(sqrt) {
            Some(x) => x,
            None => return None,
        };
        let price: U256 = pool_price(sqrt);
        let gross: U256 = value_in_stable(h.vol0, t0, t1, price);
        let net: U256 = saturating_sub(gross, self.virtual_debt);
        Some((now, mul_div(net, wad(), supply), price))
    }

    /// The value of a share now, its value where both sides of the holdings are worth the
    /// same, and the price there. `current_nav` is the net value now.
    pub fn compute_fundamental_pps(
        &self,
        pool: &CorePool,
        current_nav: U256,
        override_sqrt: Option<U256>,
    ) -> (r: (U256, U256, U256))
        requires
            pool.wf(),
            share_values(self@, pool@, current_nav@, opt(override_sqrt)) is Some,
        ensures
            share_values(self@, pool@, current_nav@, opt(override_sqrt)) == Some(
                (r.0@, r.1@, r.2@),
            ),
    {
        match self.try_compute_fundamental_pps(pool, current_nav, override_sqrt) {
            Some(x) => x,
            None => (U256::ZERO(), U256::ZERO(), U256::ZERO()),
        }
    }
}

} // verus!
