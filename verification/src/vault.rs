//! The vault: three ranges of liquidity in a pool, what lies idle, and a debt.
use crate::arith::{p128, p64};
use crate::config::VaultParams;
use crate::core_pool::CorePool;
use crate::full_math::{floor_mul_div, mod256_sub, mul_div};
use crate::pool_config::PoolConfig;
use crate::pool_model::pool_valid;
use crate::position::Position;
use crate::sqrt_price_math::opt;
use crate::tick_manager::floor_div;
use crate::types::{I256, MAX_TICK, MAX_UINT128, MIN_TICK, Q128, U256};
use crate::vault_math::{
    amounts_for_liquidity_round, distance, max_liquidity, max_liquidity_for_amounts, one_wad,
    opt_pair, pool_price, price_of, roles, saturating_sub, value_in_stable, volatile_to_stable, wad,
};
use crate::vault_model::{
    burned_range, collateral_ratio, compensated, fees_of, gross_value, harvested, lp_amounts_at,
    manager, minted_range, net_value, no_bound, pair_sum, price_or, share_deviation, share_off_half,
    slot_amounts, slot_fees, stable_ratio, stage, tick_floor, totals, totals_at, LevAmmOpMode,
    RangeView, Slot, VaultView,
};
use vstd::prelude::*;

verus! {

/// A range of the vault.
#[derive(Debug, Clone, Copy, PartialEq, Eq)]
pub struct VaultPosition {
    pub tick_lower: i32,
    pub tick_upper: i32,
    pub liquidity: U256,
}

impl View for VaultPosition {
    type V = RangeView;

    open spec fn view(&self) -> RangeView {
        RangeView {
            lower: self.tick_lower as int,
            upper: self.tick_upper as int,
            liquidity: self.liquidity@,
        }
    }
}

/// An optional range by its view.
pub open spec fn range_view(r: Option<VaultPosition>) -> Option<RangeView> {
    match r {
        Some(x) => Some(x@),
        None => None,
    }
}

/// The ticks and the liquidity of a range, zero where there is none.
pub open spec fn range_info(r: Option<RangeView>) -> (int, int, int) {
    match r {
        Some(x) => (x.lower, x.upper, x.liquidity),
        None => (0, 0, 0),
    }
}

#[derive(Debug)]
pub struct Vault {
    pub params: VaultParams,
    pub pool_config: PoolConfig,
    pub wide: Option<VaultPosition>,
    pub base: Option<VaultPosition>,
    pub limit: Option<VaultPosition>,
    pub idle0: U256,
    pub idle1: U256,
    pub virtual_debt: U256,
    pub accumulated_fees0: U256,
    pub accumulated_fees1: U256,
    pub last_rebalance_ms: i64,
    pub last_debt_rebalance_ms: i64,
    pub tick_spacing: i32,
    pub total_supply: U256,
    pub lev_amm_notional: U256,
    pub lev_amm_collateral: U256,
    pub lev_amm_insolvent: bool,
    pub lev_amm_fee_revenue: U256,
    pub pending_lev_amm_mode: Option<LevAmmOpMode>,
    pub pending_lev_amm_trade: U256,
    pub pending_lev_amm_is_init: bool,
    pub pending_lev_amm_mint_amount0: U256,
    pub pending_lev_amm_mint_amount1: U256,
}

impl View for Vault {
    type V = VaultView;

    open spec fn view(&self) -> VaultView {
        VaultView {
            params: self.params,
            config: self.pool_config,
            spacing: self.tick_spacing as int,
            wide: range_view(self.wide),
            base: range_view(self.base),
            limit: range_view(self.limit),
            idle0: self.idle0@,
            idle1: self.idle1@,
            debt: self.virtual_debt@,
            fees0: self.accumulated_fees0@,
            fees1: self.accumulated_fees1@,
            last_rebalance: self.last_rebalance_ms as int,
            last_debt_rebalance: self.last_debt_rebalance_ms as int,
            supply: self.total_supply@,
            notional: self.lev_amm_notional@,
            collateral: self.lev_amm_collateral@,
            insolvent: self.lev_amm_insolvent,
            revenue: self.lev_amm_fee_revenue@,
            pending: self.pending_lev_amm_mode,
            pending_trade: self.pending_lev_amm_trade@,
            pending_init: self.pending_lev_amm_is_init,
            pending0: self.pending_lev_amm_mint_amount0@,
            pending1: self.pending_lev_amm_mint_amount1@,
        }
    }
}

/// A vault that holds nothing and owes nothing.
pub open spec fn empty_vault(params: VaultParams, config: PoolConfig, spacing: int) -> VaultView {
    VaultView {
        params,
        config,
        spacing,
        wide: None,
        base: None,
        limit: None,
        idle0: 0,
        idle1: 0,
        debt: 0,
        fees0: 0,
        fees1: 0,
        last_rebalance: 0,
        last_debt_rebalance: 0,
        supply: 0,
        notional: 0,
        collateral: 0,
        insolvent: false,
        revenue: 0,
        pending: None,
        pending_trade: 0,
        pending_init: false,
        pending0: 0,
        pending1: 0,
    }
}

/// The price of the volatile token at a price of token 1 per token 0.
pub open spec fn volatile_price(vol0: bool, price: int) -> int {
    if vol0 {
        price
    } else if price == 0 {
        0
    } else {
        floor_mul_div(one_wad(), one_wad(), price)
    }
}

/// A tick number as the type of ticks, where it is in range.
pub fn as_tick(t: i64) -> (r: Option<i32>)
    ensures
        match r {
            Some(x) => x == t && MIN_TICK <= t <= MAX_TICK,
            None => t < MIN_TICK || t > MAX_TICK,
        },
{
    if t < MIN_TICK as i64 || t > MAX_TICK as i64 {
        None
    } else {
        Some(t as i32)
    }
}

/// As much liquidity as two amounts give between two tick numbers.
pub fn wide_max_liquidity(
    sqrt_price: U256,
    lower: i64,
    upper: i64,
    amount0: U256,
    amount1: U256,
) -> (r: Option<U256>)
    ensures
        opt(r) == max_liquidity(sqrt_price@, lower as int, upper as int, amount0@, amount1@),
{
    match (as_tick(lower), as_tick(upper)) {
        (Some(l), Some(u)) => max_liquidity_for_amounts(sqrt_price, l, u, amount0, amount1),
        _ => None,
    }
}

/// The usable tick at or below.
pub fn floor_tick(tick: i32, spacing: i32) -> (r: i64)
    requires
        spacing > 0,
    ensures
        r == tick_floor(tick as int, spacing as int),
        -0x1_0000_0000 < r <= tick,
{
    let q: i64 = floor_div(tick as i64, spacing as i64);
    proof {
        let s = spacing as int;
        crate::arith::div_facts(tick as int, s);
        assert(tick - s < q * s <= tick) by (nonlinear_arith)
            requires
                tick == q * s + tick as int % s,
                0 <= tick as int % s < s,
        ;
    }
    q * spacing as i64
}

impl Vault {
    /// The spacing of usable ticks is positive.
    pub open spec fn wf(&self) -> bool {
        self.tick_spacing > 0
    }

    pub fn new(params: VaultParams, pool_config: PoolConfig, tick_spacing: i32) -> (r: Self)
        ensures
            r@ == empty_vault(params, pool_config, tick_spacing as int),
            tick_spacing > 0 ==> r.wf(),
    {
        Vault {
            params,
            pool_config,
            wide: None,
            base: None,
            limit: None,
            idle0: U256::ZERO(),
            idle1: U256::ZERO(),
            virtual_debt: U256::ZERO(),
            accumulated_fees0: U256::ZERO(),
            accumulated_fees1: U256::ZERO(),
            last_rebalance_ms: 0,
            last_debt_rebalance_ms: 0,
            tick_spacing,
            total_supply: U256::ZERO(),
            lev_amm_notional: U256::ZERO(),
            lev_amm_collateral: U256::ZERO(),
            lev_amm_insolvent: false,
            lev_amm_fee_revenue: U256::ZERO(),
            pending_lev_amm_mode: None,
            pending_lev_amm_trade: U256::ZERO(),
            pending_lev_amm_is_init: false,
            pending_lev_amm_mint_amount0: U256::ZERO(),
            pending_lev_amm_mint_amount1: U256::ZERO(),
        }
    }

    /// The ticks of the base range, zero where there is none.
    pub fn base_range_ticks(&self) -> (r: (i32, i32))
        ensures
            (r.0 as int, r.1 as int) == (range_info(self@.base).0, range_info(self@.base).1),
    {
        match self.base {
            Some(p) => (p.tick_lower, p.tick_upper),
            None => (0, 0),
        }
    }

    pub fn wide_info(&self) -> (r: (i32, i32, U256))
        ensures
            (r.0 as int, r.1 as int, r.2@) == range_info(self@.wide),
    {
        info(self.wide)
    }

    pub fn base_info(&self) -> (r: (i32, i32, U256))
        ensures
            (r.0 as int, r.1 as int, r.2@) == range_info(self@.base),
    {
        info(self.base)
    }

    pub fn limit_info(&self) -> (r: (i32, i32, U256))
        ensures
            (r.0 as int, r.1 as int, r.2@) == range_info(self@.limit),
    {
        info(self.limit)
    }

    pub fn range(&self, slot: Slot) -> (r: Option<VaultPosition>)
        ensures
            range_view(r) == self@.range(slot),
    {
        match slot {
            Slot::Wide => self.wide,
            Slot::Base => self.base,
            Slot::Limit => self.limit,
        }
    }

    pub fn set_range(&mut self, slot: Slot, range: Option<VaultPosition>)
        ensures
            final(self)@ == old(self)@.with_range(slot, range_view(range)),
            final(self).tick_spacing == old(self).tick_spacing,
    {
        match slot {
            Slot::Wide => {
                self.wide = range;
            },
            Slot::Base => {
                self.base = range;
            },
            Slot::Limit => {
                self.limit = range;
            },
        }
    }

    /// Token 1 per token 0 at a square root price.
    pub fn pool_price(sqrt_price_x96: U256) -> (r: U256)
        ensures
            r@ == price_of(sqrt_price_x96@),
    {
        pool_price(sqrt_price_x96)
    }

    /// The price of the volatile token in stable units.
    pub fn volatile_price_wad(sqrt_price_x96: U256, is_volatile_token0: bool) -> (r: U256)
        ensures
            r@ == volatile_price(is_volatile_token0, price_of(sqrt_price_x96@)),
    {
        let t1_per_t0: U256 = pool_price(sqrt_price_x96);
        if is_volatile_token0 {
            t1_per_t0
        } else if t1_per_t0.is_zero() {
            U256::ZERO()
        } else {
            mul_div(wad(), wad(), t1_per_t0)
        }
    }

    pub(crate) fn add_idle(&mut self, a0: U256, a1: U256)
        ensures
            final(self)@ == old(self)@.plus_idle(a0@, a1@),
            final(self).tick_spacing == old(self).tick_spacing,
    {
        self.idle0 = self.idle0 + a0;
        self.idle1 = self.idle1 + a1;
    }

    pub(crate) fn take_idle(&mut self, a0: U256, a1: U256)
        ensures
            final(self)@ == old(self)@.minus_idle(a0@, a1@),
            final(self).tick_spacing == old(self).tick_spacing,
    {
        self.idle0 = self.idle0 - a0;
        self.idle1 = self.idle1 - a1;
    }
}

fn info(range: Option<VaultPosition>) -> (r: (i32, i32, U256))
    ensures
        (r.0 as int, r.1 as int, r.2@) == range_info(range_view(range)),
{
    match range {
        Some(p) => (p.tick_lower, p.tick_upper, p.liquidity),
        None => (0, 0, U256::ZERO()),
    }
}

/// The name under which the vault holds its positions in the pool.
pub fn manager_name() -> (r: &'static str)
    ensures
        r@ == manager(),
{
    "0xVAULT_MANAGER"
}

// Single ranges.
impl Vault {
    /// Mints in a range and pays from what is idle. Returns what it took.
    pub(crate) fn mint_range(&mut self, pool: &mut CorePool, lower: i32, upper: i32, liquidity: U256) -> (r:
        Option<(U256, U256)>)
        requires
            old(pool).wf(),
        ensures
            final(pool).wf(),
            pool_valid(old(pool)@) ==> pool_valid(final(pool)@),
            final(self).tick_spacing == old(self).tick_spacing,
            minted_range(old(self)@, old(pool)@, lower as int, upper as int, liquidity@) == (match r {
                Some(u) => Some((final(self)@, final(pool)@, u.0@, u.1@)),
                None => None,
            }),
    {
        reveal(minted_range);
        match pool.try_mint(manager_name(), lower, upper, I256(liquidity)) {
            Some((a0, a1)) => {
                let used0: U256 = a0.abs();
                let used1: U256 = a1.abs();
                self.idle0 = saturating_sub(self.idle0, used0);
                self.idle1 = saturating_sub(self.idle1, used1);
                Some((used0, used1))
            },
            None => None,
        }
    }

    /// Burns in a range, collects all that it is owed and makes up for the rounding.
    /// Returns what the burn gave and what was collected.
    pub(crate) fn burn_range(&mut self, pool: &mut CorePool, lower: i32, upper: i32, liquidity: U256) -> (r:
        Option<((I256, I256), (U256, U256))>)
        requires
            old(pool).wf(),
        ensures
            final(pool).wf(),
            pool_valid(old(pool)@) ==> pool_valid(final(pool)@),
            final(self).tick_spacing == old(self).tick_spacing,
            burned_range(old(self)@, old(pool)@, lower as int, upper as int, liquidity@) == (match r {
                Some((b, c)) => Some((final(self)@, final(pool)@, (b.0@, b.1@), (c.0@, c.1@))),
                None => None,
            }),
    {
        reveal(burned_range);
        let (b0, b1) = match pool.try_burn(manager_name(), lower, upper, I256(liquidity)) {
            Some(x) => x,
            None => return None,
        };
        let (c0, c1) = match pool.try_collect(
            manager_name(),
            lower,
            upper,
            MAX_UINT128(),
            MAX_UINT128(),
        ) {
            Some(x) => x,
            None => return None,
        };
        self.add_idle(c0, c1);
        self.compensate_burn_rounding(pool.tick_current(), lower, upper, b0, b1);
        Some(((b0, b1), (c0, c1)))
    }

    /// Adds one unit of each token that a burn gave.
    fn compensate_burn_rounding(&mut self, tick: i32, lo: i32, hi: i32, burned0: I256, burned1: I256)
        ensures
            final(self).tick_spacing == old(self).tick_spacing,
            final(self)@ == compensated(
                old(self)@,
                tick as int,
                lo as int,
                hi as int,
                burned0@,
                burned1@,
            ),
    {
        let one0: U256 = if burned0.is_positive() && tick < hi {
            U256::ONE()
        } else {
            U256::ZERO()
        };
        let one1: U256 = if burned1.is_positive() && tick >= lo {
            U256::ONE()
        } else {
            U256::ZERO()
        };
        self.add_idle(one0, one1);
    }

    /// Collects the fees of a range.
    pub(crate) fn harvest(&mut self, pool: &mut CorePool, lower: i32, upper: i32) -> (ok: bool)
        requires
            old(pool).wf(),
        ensures
            final(pool).wf(),
            pool_valid(old(pool)@) ==> pool_valid(final(pool)@),
            final(self).tick_spacing == old(self).tick_spacing,
            harvested(old(self)@, old(pool)@, lower as int, upper as int) == stage(
                ok,
                final(self)@,
                final(pool)@,
            ),
    {
        reveal(harvested);
        if pool.try_burn(manager_name(), lower, upper, I256::ZERO()).is_none() {
            return false;
        }
        let (c0, c1) = match pool.try_collect(
            manager_name(),
            lower,
            upper,
            MAX_UINT128(),
            MAX_UINT128(),
        ) {
            Some(x) => x,
            None => return false,
        };
        self.accumulated_fees0 = self.accumulated_fees0 + c0;
        self.accumulated_fees1 = self.accumulated_fees1 + c1;
        self.add_idle(c0, c1);
        true
    }
}

// What the vault holds.
impl Vault {
    /// The fees that a range has earned and not collected.
    pub fn position_fees(&self, pool: &CorePool, range: Option<VaultPosition>) -> (r: Option<
        (U256, U256),
    >)
        requires
            pool.wf(),
        ensures
            opt_pair(r) == slot_fees(pool@, range_view(range)),
    {
        reveal(slot_fees);
        let vp: VaultPosition = match range {
            Some(x) => x,
            None => return Some((U256::ZERO(), U256::ZERO())),
        };
        let pos: Position = pool.position_manager().get_position_readonly(
            manager_name(),
            vp.tick_lower,
            vp.tick_upper,
        );
        if pos.liquidity.is_zero() {
            return Some((pos.tokens_owed_0, pos.tokens_owed_1));
        }
        if vp.tick_lower < MIN_TICK || vp.tick_lower > MAX_TICK || vp.tick_upper < MIN_TICK
            || vp.tick_upper > MAX_TICK {
            return None;
        }
        let (fg0, fg1) = pool.tick_manager().get_fee_growth_inside_readonly(
            vp.tick_lower,
            vp.tick_upper,
            pool.tick_current(),
            pool.fee_growth_global_0_x128(),
            pool.fee_growth_global_1_x128(),
        );
        let delta0: U256 = mod256_sub(fg0, pos.fee_growth_inside_0_last_x128);
        let delta1: U256 = mod256_sub(fg1, pos.fee_growth_inside_1_last_x128);
        let est0: U256 = mul_div(delta0, pos.liquidity, Q128());
        let est1: U256 = mul_div(delta1, pos.liquidity, Q128());
        Some((pos.tokens_owed_0 + est0, pos.tokens_owed_1 + est1))
    }

    /// The fees that all ranges have earned and not collected; `None` where a range
    /// leaves the ticks of the pool.
    pub fn try_all_fees(&self, pool: &CorePool) -> (r: Option<(U256, U256)>)
        requires
            pool.wf(),
        ensures
            opt_pair(r) == fees_of(self@, pool@),
    {
        add_pairs(
            add_pairs(self.position_fees(pool, self.wide), self.position_fees(pool, self.base)),
            self.position_fees(pool, self.limit),
        )
    }

    /// The amounts in all ranges at a price; `None` where they do not exist.
    pub fn try_lp_amounts_at(&self, sqrt_price: U256, round_up: bool) -> (r: Option<(U256, U256)>)
        ensures
            opt_pair(r) == lp_amounts_at(self@, sqrt_price@, round_up),
    {
        add_pairs(
            add_pairs(
                amounts_in(self.wide, sqrt_price, round_up),
                amounts_in(self.base, sqrt_price, round_up),
            ),
            amounts_in(self.limit, sqrt_price, round_up),
        )
    }

    /// All that the vault holds, its ranges taken at a price; `None` where an amount
    /// does not exist.
    pub fn try_totals(&self, pool: &CorePool, sqrt_price: U256, round_up: bool) -> (r: Option<
        (U256, U256),
    >)
        requires
            pool.wf(),
        ensures
            opt_pair(r) == totals_at(self@, pool@, sqrt_price@, round_up),
    {
        add_pairs(
            add_pairs(self.try_lp_amounts_at(sqrt_price, round_up), self.try_all_fees(pool)),
            Some((self.idle0, self.idle1)),
        )
    }
}

fn add_pairs(a: Option<(U256, U256)>, b: Option<(U256, U256)>) -> (r: Option<(U256, U256)>)
    ensures
        opt_pair(r) == pair_sum(opt_pair(a), opt_pair(b)),
{
    match (a, b) {
        (Some(x), Some(y)) => Some((x.0 + y.0, x.1 + y.1)),
        _ => None,
    }
}

fn amounts_in(range: Option<VaultPosition>, sqrt_price: U256, round_up: bool) -> (r: Option<
    (U256, U256),
>)
    ensures
        opt_pair(r) == slot_amounts(range_view(range), sqrt_price@, round_up),
{
    match range {
        Some(p) => if p.liquidity.is_zero() {
            Some((U256::ZERO(), U256::ZERO()))
        } else {
            amounts_for_liquidity_round(
                sqrt_price,
                p.tick_lower,
                p.tick_upper,
                p.liquidity,
                round_up,
            )
        },
        None => Some((U256::ZERO(), U256::ZERO())),
    }
}

/// The price that is given, or else the pool's.
pub fn price_choice(pool: &CorePool, override_sqrt: Option<U256>) -> (r: U256)
    ensures
        r@ == price_or(pool@, opt(override_sqrt)),
{
    match override_sqrt {
        Some(x) => x,
        None => pool.sqrt_price_x96(),
    }
}

/// The amounts of all three ranges exist at a price.
pub open spec fn has_ranges(v: VaultView, price: int) -> bool {
    &&& slot_amounts(v.wide, price, false) is Some
    &&& slot_amounts(v.base, price, false) is Some
    &&& slot_amounts(v.limit, price, false) is Some
}

/// The amounts of the three ranges at a price.
pub open spec fn is_ranges(a: Seq<(U256, U256)>, v: VaultView, price: int) -> bool {
    &&& a.len() == 3
    &&& slot_amounts(v.wide, price, false) == Some((a[0].0@, a[0].1@))
    &&& slot_amounts(v.base, price, false) == Some((a[1].0@, a[1].1@))
    &&& slot_amounts(v.limit, price, false) == Some((a[2].0@, a[2].1@))
}

/// What stands for an unbounded ratio.
fn unbounded() -> (r: U256)
    ensures
        r@ == no_bound(),
{
    U256::from_u128(0x7fff_ffff_ffff_ffff_ffff_ffff_ffff_ffff)
}

/// The lowest 64 bits.
fn low_word(x: U256) -> (r: u64)
    ensures
        r == x@ % p64(),
{
    let lo: u128 = x.lo;
    proof {
        let h = x.hi as int;
        let l = x.lo as int;
        assert((h * p128() + l) % p64() == l % p64()) by (nonlinear_arith)
            requires
                p128() == p64() * p64(),
                p64() == 0x1_0000_0000_0000_0000,
        {
            vstd::arithmetic::div_mod::lemma_mod_multiples_vanish(h * p64(), l, p64());
        }
        assert(lo as u64 == lo % 0x1_0000_0000_0000_0000) by (bit_vector);
    }
    lo as u64
}

/// How far a part of a total is from one half, in ten-thousandths.
fn off_half(part: U256, total: U256) -> (r: u64)
    requires
        total@ != 0,
    ensures
        r == share_off_half(part@, total@),
{
    reveal(share_off_half);
    let half: U256 = total / U256::from_u128(2);
    let share: U256 = (part * U256::from_u128(10_000) + half) / total;
    low_word(distance(share, U256::from_u128(5_000)))
}

// Values.
impl Vault {
    /// The fees that all ranges have earned and not collected.
    pub fn all_fees_pub(&self, pool: &CorePool) -> (r: (U256, U256))
        requires
            pool.wf(),
            fees_of(self@, pool@) is Some,
        ensures
            fees_of(self@, pool@) == Some((r.0@, r.1@)),
    {
        match self.try_all_fees(pool) {
            Some(x) => x,
            None => (U256::ZERO(), U256::ZERO()),
        }
    }

    /// The amounts in all ranges, rounded down.
    pub fn lp_amounts(&self, pool: &CorePool) -> (r: (U256, U256))
        requires
            pool.wf(),
            lp_amounts_at(self@, pool@.price, false) is Some,
        ensures
            lp_amounts_at(self@, pool@.price, false) == Some((r.0@, r.1@)),
    {
        match self.try_lp_amounts_at(pool.sqrt_price_x96(), false) {
            Some(x) => x,
            None => (U256::ZERO(), U256::ZERO()),
        }
    }

    /// The amounts in all ranges, rounded up.
    pub fn lp_amounts_round_up(&self, pool: &CorePool) -> (r: (U256, U256))
        requires
            pool.wf(),
            lp_amounts_at(self@, pool@.price, true) is Some,
        ensures
            lp_amounts_at(self@, pool@.price, true) == Some((r.0@, r.1@)),
    {
        match self.try_lp_amounts_at(pool.sqrt_price_x96(), true) {
            Some(x) => x,
            None => (U256::ZERO(), U256::ZERO()),
        }
    }

    /// All that the vault holds, rounded down.
    pub fn total_amounts(&self, pool: &CorePool) -> (r: (U256, U256))
        requires
            pool.wf(),
            totals(self@, pool@, false) is Some,
        ensures
            totals(self@, pool@, false) == Some((r.0@, r.1@)),
    {
        match self.try_totals(pool, pool.sqrt_price_x96(), false) {
            Some(x) => x,
            None => (U256::ZERO(), U256::ZERO()),
        }
    }

    /// All that the vault holds, rounded up.
    pub fn total_amounts_round_up(&self, pool: &CorePool) -> (r: (U256, U256))
        requires
            pool.wf(),
            totals(self@, pool@, true) is Some,
        ensures
            totals(self@, pool@, true) == Some((r.0@, r.1@)),
    {
        match self.try_totals(pool, pool.sqrt_price_x96(), true) {
            Some(x) => x,
            None => (U256::ZERO(), U256::ZERO()),
        }
    }

    /// As `total_amounts`, with the ranges taken at a given price. Fees are read at the
    /// pool's own tick.
    pub fn total_amounts_at(&self, pool: &CorePool, override_sqrt: Option<U256>) -> (r: (U256, U256))
        requires
            pool.wf(),
            totals_at(self@, pool@, price_or(pool@, opt(override_sqrt)), false) is Some,
        ensures
            totals_at(self@, pool@, price_or(pool@, opt(override_sqrt)), false) == Some((r.0@, r.1@)),
    {
        match self.try_totals(pool, price_choice(pool, override_sqrt), false) {
            Some(x) => x,
            None => (U256::ZERO(), U256::ZERO()),
        }
    }

    /// As `per_range_amounts`; `None` where an amount does not exist.
    pub fn try_per_range_amounts(&self, pool: &CorePool, override_sqrt: Option<U256>) -> (r: Option<
        [(U256, U256); 3],
    >)
        ensures
            match r {
                Some(a) => is_ranges(
                    a@,
                    self@,
                    price_or(pool@, opt(override_sqrt)),
                ),
                None => !has_ranges(self@, price_or(pool@, opt(override_sqrt))),
            },
    {
        let sqrt_price: U256 = price_choice(pool, override_sqrt);
        match (
            amounts_in(self.wide, sqrt_price, false),
            amounts_in(self.base, sqrt_price, false),
            amounts_in(self.limit, sqrt_price, false),
        ) {
            (Some(a), Some(b), Some(c)) => Some([a, b, c]),
            _ => None,
        }
    }

    /// The amounts in the wide, the base and the limit range, without fees.
    pub fn per_range_amounts(&self, pool: &CorePool, override_sqrt: Option<U256>) -> (r: [(
        U256,
        U256,
    ); 3])
        requires
            has_ranges(self@, price_or(pool@, opt(override_sqrt))),
        ensures
            is_ranges(r@, self@, price_or(pool@, opt(override_sqrt))),
    {
        match self.try_per_range_amounts(pool, override_sqrt) {
            Some(a) => a,
            None => [
                (U256::ZERO(), U256::ZERO()),
                (U256::ZERO(), U256::ZERO()),
                (U256::ZERO(), U256::ZERO()),
            ],
        }
    }

    /// As `total_value_in_stable`; `None` where an amount does not exist.
    pub fn try_total_value_in_stable(&self, pool: &CorePool, override_sqrt: Option<U256>) -> (r: Option<U256>)
        requires
            pool.wf(),
        ensures
            opt(r) == gross_value(self@, pool@, opt(override_sqrt)),
    {
        let price_wad: U256 = pool_price(price_choice(pool, override_sqrt));
        match self.try_totals(pool, pool.sqrt_price_x96(), false) {
            Some((t0, t1)) => Some(
                value_in_stable(self.pool_config.is_volatile_token0(), t0, t1, price_wad),
            ),
            None => None,
        }
    }

    /// The gross value in stable units.
    pub fn total_value_in_stable(&self, pool: &CorePool, override_sqrt: Option<U256>) -> (r: U256)
        requires
            pool.wf(),
            gross_value(self@, pool@, opt(override_sqrt)) is Some,
        ensures
            gross_value(self@, pool@, opt(override_sqrt)) == Some(r@),
    {
        match self.try_total_value_in_stable(pool, override_sqrt) {
            Some(x) => x,
            None => U256::ZERO(),
        }
    }

    /// As `total_pool_value`; `None` where an amount does not exist.
    pub fn try_total_pool_value(&self, pool: &CorePool, override_sqrt: Option<U256>) -> (r: Option<U256>)
        requires
            pool.wf(),
        ensures
            opt(r) == net_value(self@, pool@, opt(override_sqrt)),
    {
        match self.try_total_value_in_stable(pool, override_sqrt) {
            Some(gav) => Some(saturating_sub(gav, self.virtual_debt)),
            None => None,
        }
    }

    /// The value in stable units, less the debt.
    pub fn total_pool_value(&self, pool: &CorePool, override_sqrt: Option<U256>) -> (r: U256)
        requires
            pool.wf(),
            net_value(self@, pool@, opt(override_sqrt)) is Some,
        ensures
            net_value(self@, pool@, opt(override_sqrt)) == Some(r@),
    {
        match self.try_total_pool_value(pool, override_sqrt) {
            Some(x) => x,
            None => U256::ZERO(),
        }
    }

    /// As `lp_ratio`; `None` where an amount does not exist.
    pub fn try_lp_ratio(&self, pool: &CorePool, override_sqrt: Option<U256>) -> (r: Option<U256>)
        requires
            pool.wf(),
        ensures
            opt(r) == stable_ratio(self@, pool@, opt(override_sqrt)),
    {
        let price_wad: U256 = pool_price(price_choice(pool, override_sqrt));
        let vol0: bool = self.pool_config.is_volatile_token0();
        let (t0, t1) = match self.try_totals(pool, pool.sqrt_price_x96(), true) {
            Some(x) => x,
            None => return None,
        };
        let (volatile, stable) = roles(vol0, t0, t1);
        let value: U256 = volatile_to_stable(vol0, volatile, price_wad);
        if value.is_zero() {
            return Some(unbounded());
        }
        Some(mul_div(stable, wad(), value))
    }

    /// The stable amount over the value of the volatile one, 10^18 where they are equal.
    pub fn lp_ratio(&self, pool: &CorePool, override_sqrt: Option<U256>) -> (r: U256)
        requires
            pool.wf(),
            stable_ratio(self@, pool@, opt(override_sqrt)) is Some,
        ensures
            stable_ratio(self@, pool@, opt(override_sqrt)) == Some(r@),
    {
        match self.try_lp_ratio(pool, override_sqrt) {
            Some(x) => x,
            None => U256::ZERO(),
        }
    }

    /// As `collateral_ratio_wad`; `None` where an amount does not exist.
    pub fn try_collateral_ratio_wad(&self, pool: &CorePool, override_sqrt: Option<U256>) -> (r: Option<U256>)
        requires
            pool.wf(),
        ensures
            opt(r) == collateral_ratio(self@, pool@, opt(override_sqrt)),
    {
        if self.virtual_debt.is_zero() {
            return Some(unbounded());
        }
        match self.try_total_value_in_stable(pool, override_sqrt) {
            Some(value) => Some(mul_div(value, wad(), self.virtual_debt)),
            None => None,
        }
    }

    /// The gross value over the debt, 10^18 where they are equal.
    pub fn collateral_ratio_wad(&self, pool: &CorePool, override_sqrt: Option<U256>) -> (r: U256)
        requires
            pool.wf(),
            collateral_ratio(self@, pool@, opt(override_sqrt)) is Some,
        ensures
            collateral_ratio(self@, pool@, opt(override_sqrt)) == Some(r@),
    {
        match self.try_collateral_ratio_wad(pool, override_sqrt) {
            Some(x) => x,
            None => U256::ZERO(),
        }
    }

    /// As `share_deviation_bps`; `None` where an amount does not exist.
    pub fn try_share_deviation_bps(&self, pool: &CorePool, override_sqrt: Option<U256>) -> (r:
        Option<u64>)
        requires
            pool.wf(),
        ensures
            share_deviation(self@, pool@, opt(override_sqrt)) == (match r {
                Some(x) => Some(x as int),
                None => None,
            }),
    {
        let price_wad: U256 = pool_price(price_choice(pool, override_sqrt));
        let vol0: bool = self.pool_config.is_volatile_token0();
        let (t0, t1) = match self.try_totals(pool, pool.sqrt_price_x96(), true) {
            Some(x) => x,
            None => return None,
        };
        let (volatile, stable) = roles(vol0, t0, t1);
        let total: U256 = stable + volatile_to_stable(vol0, volatile, price_wad);
        if total.is_zero() || (!vol0 && price_wad.is_zero()) {
            return Some(0);
        }
        Some(off_half(stable, total))
    }

    /// How far the stable share is from one half, in ten-thousandths.
    pub fn share_deviation_bps(&self, pool: &CorePool, override_sqrt: Option<U256>) -> (r: u64)
        requires
            pool.wf(),
            share_deviation(self@, pool@, opt(override_sqrt)) is Some,
        ensures
            share_deviation(self@, pool@, opt(override_sqrt)) == Some(r as int),
    {
        match self.try_share_deviation_bps(pool, override_sqrt) {
            Some(x) => x,
            None => 0,
        }
    }
}

} // verus!
