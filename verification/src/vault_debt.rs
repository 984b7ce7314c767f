//! How a vault borrows, repays and evens out what lies idle.
use crate::core_pool::CorePool;
use crate::debt_model::{
    best_loan, borrowing, bought, debt_plan, debt_rebalanced, delevered, evened, fee_on, first_loan,
    first_split, levered, loan_fee, loan_split, matched_split, no_plan, plan_terms, ratio_after,
    ratio_bounds, regulated, regulated_by, repaid, repaying, search_step, searched,
    standing_debt_rebalanced, PlanView, Search, Terms,
};
use crate::full_math::{mul_div, try_mul_div, try_mul_div_rounding_up};
use crate::pool_model::pool_valid;
use crate::sqrt_price_math::opt;
use crate::types::{max_u256, min_u256, U256};
use crate::vault::{price_choice, Vault};
use crate::vault_math::{
    ceil_div, distance, fee_den, one_wad, opt_pair, pool_price, price_of, roles, saturating_sub,
    stable_to_volatile, volatile_to_stable, wad,
};
use crate::vault_model::{price_or, stage};
use vstd::prelude::*;

verus! {

/// A plan to borrow (mode 1) or to repay (mode 2), or none (mode 0).
#[derive(Debug, Clone, Copy)]
pub struct RebalanceResult {
    pub mode: u8,
    pub amount: U256,
    pub swap_fee: U256,
    pub shares_to_burn: U256,
    pub withdraw_stable: U256,
    pub withdraw_volatile: U256,
}

impl View for RebalanceResult {
    type V = PlanView;

    open spec fn view(&self) -> PlanView {
        PlanView {
            mode: self.mode as int,
            amount: self.amount@,
            swap_fee: self.swap_fee@,
            shares: self.shares_to_burn@,
            stable: self.withdraw_stable@,
            volatile: self.withdraw_volatile@,
        }
    }
}

/// An optional plan by its view.
pub open spec fn plan_view(r: Option<RebalanceResult>) -> Option<PlanView> {
    match r {
        Some(x) => Some(x@),
        None => None,
    }
}

impl RebalanceResult {
    pub fn noop() -> (r: Self)
        ensures
            r@ == no_plan(),
    {
        RebalanceResult {
            mode: 0,
            amount: U256::ZERO(),
            swap_fee: U256::ZERO(),
            shares_to_burn: U256::ZERO(),
            withdraw_stable: U256::ZERO(),
            withdraw_volatile: U256::ZERO(),
        }
    }
}

/// What a plan is made from.
#[derive(Clone, Copy)]
struct DebtTerms {
    vol0: bool,
    value: U256,
    debt: U256,
    tc: U256,
    fee: U256,
    price: U256,
    volatile: U256,
    stable: U256,
    volatile_up: U256,
    stable_up: U256,
    ratio: U256,
    supply: U256,
}

impl View for DebtTerms {
    type V = Terms;

    closed spec fn view(&self) -> Terms {
        Terms {
            vol0: self.vol0,
            value: self.value@,
            debt: self.debt@,
            tc: self.tc@,
            fee: self.fee@,
            price: self.price@,
            volatile: self.volatile@,
            stable: self.stable@,
            volatile_up: self.volatile_up@,
            stable_up: self.stable_up@,
            ratio: self.ratio@,
            supply: self.supply@,
        }
    }
}

fn fee_of(amount: U256, fee: U256) -> (r: U256)
    ensures
        r@ == fee_on(amount@, fee@),
{
    mul_div(amount, fee, fee_den())
}

impl DebtTerms {
    fn target(&self) -> (r: U256)
        ensures
            r@ == self@.target(),
    {
        mul_div(self.debt, self.tc, wad())
    }

    fn after_fee(&self) -> (r: U256)
        ensures
            r@ == self@.after_fee(),
    {
        fee_den() - self.fee
    }

    fn first_split(&self) -> (r: Option<(U256, U256, U256)>)
        requires
            self@.value > self@.target(),
        ensures
            first_split(self@) == (match r {
                Some(x) => Some((x.0@, x.1@, x.2@)),
                None => None,
            }),
    {
        reveal(first_split);
        let denom: U256 = wad() + mul_div(self.ratio, self.after_fee(), fee_den());
        let denom_fee: U256 = denom + mul_div(wad(), self.fee, fee_den());
        let target: U256 = self.target();
        let surplus: U256 = saturating_sub(self.value, target);
        let b: U256 = match try_mul_div(surplus, denom, denom_fee) {
            Some(x) => x,
            None => return None,
        };
        if b.is_zero() {
            return Some((U256::ZERO(), U256::ZERO(), U256::ZERO()));
        }
        match try_mul_div(b, wad(), denom) {
            Some(x) => Some((b, x, saturating_sub(b, x))),
            None => None,
        }
    }

    fn bought(&self, x: U256) -> (r: U256)
        ensures
            r@ == bought(self@, x@),
    {
        stable_to_volatile(self.vol0, saturating_sub(x, fee_of(x, self.fee)), self.price)
    }

    fn ratio_bounds(&self) -> (r: (U256, U256))
        requires
            self@.volatile_up != 0,
            self@.volatile != 0,
        ensures
            (r.0@, r.1@) == ratio_bounds(self@),
    {
        let up: U256 = mul_div(self.stable_up, wad(), self.volatile_up);
        let down: U256 = mul_div(self.stable, wad(), self.volatile);
        (
            mul_div(min_u256(up, down), U256::from_u128(940_000), fee_den()),
            mul_div(max_u256(up, down), U256::from_u128(1_060_000), fee_den()),
        )
    }

    fn matched_split(&self, x: U256, plan: U256) -> (r: Option<(U256, U256)>)
        ensures
            opt_pair(r) == matched_split(self@, x@, plan@),
    {
        reveal(matched_split);
        if self.volatile_up.is_zero() || self.stable_up.is_zero() || self.volatile.is_zero()
            || self.stable.is_zero() {
            return Some((x, plan));
        }
        let (low, high) = self.ratio_bounds();
        let got: U256 = self.bought(x);
        let beside: U256 = mul_div(got, low, wad());
        let least: U256 = match try_mul_div_rounding_up(beside, wad(), high) {
            Some(x) => x,
            None => return None,
        };
        let cushion: U256 = U256::from_u128(10);
        if got + cushion >= least {
            let wanted: U256 = volatile_to_stable(
                self.vol0,
                saturating_sub(least, cushion),
                self.price,
            );
            match try_mul_div_rounding_up(wanted, fee_den(), self.after_fee()) {
                Some(y) => Some((y, mul_div(self.bought(y), low, wad()))),
                None => None,
            }
        } else {
            Some((x, beside))
        }
    }

    fn first_loan(&self, x: U256, plan: U256) -> (r: Option<U256>)
        ensures
            opt(r) == first_loan(self@, x@, plan@),
    {
        reveal(first_loan);
        let required: U256 = x + plan;
        let net: U256 = saturating_sub(required, fee_of(x, self.fee));
        let num: U256 = saturating_sub(self.value * wad(), self.tc * self.debt);
        let cost: U256 = self.tc * required;
        let gain: U256 = wad() * net;
        let den: U256 = if cost > gain {
            saturating_sub(cost, gain)
        } else {
            U256::ONE()
        };
        if required.is_zero() || num.is_zero() {
            Some(required)
        } else {
            try_mul_div_rounding_up(required, num, den)
        }
    }

    fn loan_fee(&self, required: U256, plan: U256, loan: U256) -> (r: Option<U256>)
        ensures
            opt(r) == loan_fee(self@, required@, plan@, loan@),
    {
        reveal(loan_fee);
        if required.is_zero() {
            return Some(fee_of(loan, self.fee));
        }
        match try_mul_div_rounding_up(plan, loan, required) {
            Some(s) => Some(fee_of(saturating_sub(loan, min_u256(s, loan)), self.fee)),
            None => None,
        }
    }

    fn ratio_after(&self, required: U256, plan: U256, loan: U256) -> (r: Option<U256>)
        ensures
            opt(r) == ratio_after(self@, required@, plan@, loan@),
    {
        reveal(ratio_after);
        match self.loan_fee(required, plan, loan) {
            Some(f) => try_mul_div(
                self.value + saturating_sub(loan, f),
                wad(),
                self.debt + loan,
            ),
            None => None,
        }
    }

    fn best_loan(&self, required: U256, plan: U256, loan: U256) -> (r: Option<U256>)
        ensures
            opt(r) == best_loan(self@, required@, plan@, loan@),
    {
        reveal(best_loan);
        let cr: U256 = match self.ratio_after(required, plan, loan) {
            Some(x) => x,
            None => return None,
        };
        let mut off: U256 = distance(cr, self.tc);
        let tol: U256 = self.tc / U256::from_u128(1000);
        if off <= tol {
            return Some(loan);
        }
        let mut low: U256 = if loan > U256::ONE() {
            loan / U256::from_u128(2)
        } else {
            U256::ONE()
        };
        let mut high: U256 = loan * U256::from_u128(2);
        let mut best: U256 = loan;
        let ghost first = Search { low: low@, high: high@, best: best@, off: off@ };
        let mut left: u32 = 40;
        while left > 0 && high - low > U256::ONE()
            invariant
                tol@ == self@.tc / 1000,
                best_loan(self@, required@, plan@, loan@) == (match searched(
                    self@,
                    required@,
                    plan@,
                    first,
                    40,
                ) {
                    Some(u) => Some(u.best),
                    None => None,
                }),
                searched(self@, required@, plan@, first, 40) == searched(
                    self@,
                    required@,
                    plan@,
                    (Search { low: low@, high: high@, best: best@, off: off@ }),
                    left as nat,
                ),
            decreases left,
        {
            let ghost s = Search { low: low@, high: high@, best: best@, off: off@ };
            assert(searched(self@, required@, plan@, s, left as nat) == (match search_step(
                self@,
                required@,
                plan@,
                s,
            ) {
                Some(u) => if u.off <= self@.tc / 1000 {
                    Some(u)
                } else {
                    searched(self@, required@, plan@, u, (left - 1) as nat)
                },
                None => None,
            }));
            let mid: U256 = (low + high) / U256::from_u128(2);
            let cr: U256 = match self.ratio_after(required, plan, mid) {
                Some(x) => x,
                None => {
                    proof {
                        reveal(search_step);
                    }
                    return None;
                },
            };
            let d: U256 = distance(cr, self.tc);
            if d < off {
                off = d;
                best = mid;
            }
            if cr > self.tc {
                low = mid;
            } else {
                high = mid;
            }
            assert(search_step(self@, required@, plan@, s) == Some(
                (Search { low: low@, high: high@, best: best@, off: off@ }),
            )) by {
                reveal(search_step);
            }
            left = left - 1;
            if off <= tol {
                return Some(best);
            }
        }
        Some(best)
    }

    fn borrowing(&self) -> (r: Option<RebalanceResult>)
        requires
            self@.value > self@.target(),
        ensures
            plan_view(r) == borrowing(self@),
    {
        reveal(borrowing);
        let (b, x0, plan0) = match self.first_split() {
            Some(x) => x,
            None => return None,
        };
        if b.is_zero() {
            return Some(RebalanceResult::noop());
        }
        let (x, plan) = match self.matched_split(x0, plan0) {
            Some(x) => x,
            None => return None,
        };
        let required: U256 = x + plan;
        let first: U256 = match self.first_loan(x, plan) {
            Some(x) => x,
            None => return None,
        };
        let loan: U256 = match self.best_loan(required, plan, first) {
            Some(x) => x,
            None => return None,
        };
        if loan.is_zero() {
            return Some(RebalanceResult::noop());
        }
        match self.loan_fee(required, plan, loan) {
            Some(f) => Some(
                RebalanceResult {
                    mode: 1,
                    amount: loan,
                    swap_fee: f,
                    ..RebalanceResult::noop()
                },
            ),
            None => None,
        }
    }

    fn repaying(&self) -> (r: Option<RebalanceResult>)
        requires
            self@.target() > self@.value,
        ensures
            plan_view(r) == repaying(self@),
    {
        reveal(repaying);
        let w: U256 = wad();
        let unit: U256 = self.ratio + w;
        let twice: U256 = mul_div(w, self.fee, fee_den()) * U256::from_u128(2);
        let term: U256 = match try_mul_div(twice, w, unit) {
            Some(x) => x,
            None => return None,
        };
        if term >= w {
            return Some(
                RebalanceResult {
                    mode: 2,
                    amount: min_u256(self.value, self.debt),
                    swap_fee: U256::ZERO(),
                    shares_to_burn: self.supply,
                    withdraw_stable: self.stable,
                    withdraw_volatile: self.volatile,
                },
            );
        }
        let deficit: U256 = saturating_sub(self.target(), self.value);
        let wanted: U256 = min_u256(ceil_div(deficit * w, saturating_sub(w, term)), self.value);
        let stable: U256 = match try_mul_div(wanted, self.ratio, unit) {
            Some(x) => x,
            None => return None,
        };
        let rest: U256 = saturating_sub(wanted, stable);
        let f: U256 = fee_of(rest, self.fee);
        let shares: U256 = if self.value.is_zero() {
            U256::ZERO()
        } else {
            min_u256(mul_div(self.supply, wanted, self.value), self.supply)
        };
        Some(
            RebalanceResult {
                mode: 2,
                amount: min_u256(stable + saturating_sub(rest, f), self.debt),
                swap_fee: f,
                shares_to_burn: shares,
                withdraw_stable: stable,
                withdraw_volatile: stable_to_volatile(self.vol0, rest, self.price),
            },
        )
    }
}

/// The debt that is repaid when more or less than planned has come out.
fn repayment(
    plan: &RebalanceResult,
    vol0: bool,
    volatile: U256,
    stable: U256,
    price: U256,
) -> (r: U256)
    ensures
        r@ == repaid(plan@, vol0, volatile@, stable@, price@),
{
    let first: U256 = if volatile > plan.withdraw_volatile {
        plan.amount + volatile_to_stable(
            vol0,
            saturating_sub(volatile, plan.withdraw_volatile),
            price,
        )
    } else if plan.withdraw_volatile > volatile {
        saturating_sub(
            plan.amount,
            volatile_to_stable(vol0, saturating_sub(plan.withdraw_volatile, volatile), price),
        )
    } else {
        plan.amount
    };
    if stable > plan.withdraw_stable {
        first + saturating_sub(stable, plan.withdraw_stable)
    } else if plan.withdraw_stable > stable {
        saturating_sub(first, saturating_sub(plan.withdraw_stable, stable))
    } else {
        first
    }
}

impl Vault {
    fn debt_terms(&self, pool: &CorePool, override_sqrt: Option<U256>, tc: U256, fee: U256) -> (r:
        Option<DebtTerms>)
        requires
            pool.wf(),
        ensures
            plan_terms(self@, pool@, opt(override_sqrt), tc@, fee@) == (match r {
                Some(t) => Some(t@),
                None => None,
            }),
    {
        reveal(plan_terms);
        let vol0: bool = self.pool_config.is_volatile_token0();
        let price: U256 = pool_price(price_choice(pool, override_sqrt));
        let (t0, t1) = match self.try_totals(pool, pool.sqrt_price_x96(), false) {
            Some(x) => x,
            None => return None,
        };
        let (u0, u1) = match self.try_totals(pool, pool.sqrt_price_x96(), true) {
            Some(x) => x,
            None => return None,
        };
        let (volatile, stable) = roles(vol0, t0, t1);
        let (volatile_up, stable_up) = roles(vol0, u0, u1);
        let value_up: U256 = volatile_to_stable(vol0, volatile_up, price);
        let ratio: U256 = if value_up.is_zero() {
            U256::from_u128(1_000_000_000_000_000_000_000_000_000_000_000_000)
        } else {
            mul_div(stable_up, wad(), value_up)
        };
        Some(
            DebtTerms {
                vol0,
                value: stable + volatile_to_stable(vol0, volatile, price),
                debt: self.virtual_debt,
                tc,
                fee,
                price,
                volatile,
                stable,
                volatile_up,
                stable_up,
                ratio,
                supply: self.total_supply,
            },
        )
    }

    /// How much to borrow or to repay for a target ratio of value to debt, with a swap
    /// fee in millionths; `None` where an amount does not exist.
    pub fn rebalance_borrowed_amount(
        &self,
        pool: &CorePool,
        override_sqrt: Option<U256>,
        target_cr_wad: U256,
        swap_fee_ppm: u128,
    ) -> (r: Option<RebalanceResult>)
        requires
            pool.wf(),
        ensures
            plan_view(r) == debt_plan(
                self@,
                pool@,
                opt(override_sqrt),
                target_cr_wad@,
                swap_fee_ppm as int,
            ),
    {
        reveal(debt_plan);
        if pool_price(price_choice(pool, override_sqrt)).is_zero() {
            return Some(RebalanceResult::noop());
        }
        let t: DebtTerms = match self.debt_terms(
            pool,
            override_sqrt,
            target_cr_wad,
            U256::from_u128(swap_fee_ppm),
        ) {
            Some(x) => x,
            None => return None,
        };
        let target: U256 = t.target();
        if t.value > target {
            t.borrowing()
        } else if target > t.value {
            t.repaying()
        } else {
            Some(RebalanceResult::noop())
        }
    }

    fn split_loan(&self, pool: &CorePool, net: U256) -> (r: Option<(U256, U256)>)
        requires
            pool.wf(),
        ensures
            opt_pair(r) == loan_split(self@, pool@, net@),
    {
        reveal(loan_split);
        let vol0: bool = self.pool_config.is_volatile_token0();
        let price: U256 = pool_price(pool.sqrt_price_x96());
        let (t0, t1) = match self.try_totals(pool, pool.sqrt_price_x96(), false) {
            Some(x) => x,
            None => return None,
        };
        let (volatile, stable) = roles(vol0, t0, t1);
        let total: U256 = stable + volatile_to_stable(vol0, volatile, price);
        let (dv, ds) = if total.is_zero() {
            (U256::ZERO(), net)
        } else {
            let ds: U256 = mul_div(net, mul_div(stable, wad(), total), wad());
            (stable_to_volatile(vol0, saturating_sub(net, ds), price), ds)
        };
        if vol0 {
            Some((dv, ds))
        } else {
            Some((ds, dv))
        }
    }

    /// Takes a loan and deposits it in the proportion of the holdings.
    fn lever(&mut self, pool: &mut CorePool, loan: U256, swap_fee: U256) -> (ok: bool)
        requires
            old(self).wf(),
            old(pool).wf(),
        ensures
            final(pool).wf(),
            pool_valid(old(pool)@) ==> pool_valid(final(pool)@),
            final(self).tick_spacing == old(self).tick_spacing,
            levered(old(self)@, old(pool)@, loan@, swap_fee@) == stage(
                ok,
                final(self)@,
                final(pool)@,
            ),
    {
        reveal(levered);
        let (d0, d1) = match self.split_loan(pool, saturating_sub(loan, swap_fee)) {
            Some(x) => x,
            None => return false,
        };
        self.virtual_debt = self.virtual_debt + loan;
        let (a0, a1) = match self.try_deposit_pro_rata(pool, d0, d1) {
            Some(x) => x,
            None => return false,
        };
        self.add_idle(saturating_sub(d0, a0), saturating_sub(d1, a1));
        true
    }

    /// Burns shares and unwinds ranges to repay.
    fn delever(&mut self, pool: &mut CorePool, plan: &RebalanceResult) -> (ok: bool)
        requires
            old(self).wf(),
            old(pool).wf(),
        ensures
            final(pool).wf(),
            pool_valid(old(pool)@) ==> pool_valid(final(pool)@),
            final(self).tick_spacing == old(self).tick_spacing,
            delevered(old(self)@, old(pool)@, plan@) == stage(
                ok,
                final(self)@,
                final(pool)@,
            ),
    {
        reveal(delevered);
        let supply: U256 = self.total_supply;
        let shares: U256 = plan.shares_to_burn;
        if shares.is_zero() || supply < shares {
            return true;
        }
        let vol0: bool = self.pool_config.is_volatile_token0();
        let price: U256 = pool_price(pool.sqrt_price_x96());
        let i0: U256 = mul_div(self.idle0, shares, supply);
        let i1: U256 = mul_div(self.idle1, shares, supply);
        self.total_supply = supply - shares;
        self.take_idle(i0, i1);
        let (out0, out1) = match self.partial_deleverage(pool, plan.amount, price) {
            Some(x) => x,
            None => return false,
        };
        self.take_idle(out0, out1);
        let (volatile, stable) = roles(vol0, i0 + out0, i1 + out1);
        let back: U256 = min_u256(
            repayment(plan, vol0, volatile, stable, price),
            self.virtual_debt,
        );
        self.virtual_debt = self.virtual_debt - back;
        true
    }

    /// As `rebalance_debt`; false where it fails, with vault and pool left partway.
    pub fn try_rebalance_debt(&mut self, pool: &mut CorePool, target_cr_wad: U256, swap_fee_ppm: u128) -> (ok: bool)
        requires
            old(self).wf(),
            old(pool).wf(),
        ensures
            final(pool).wf(),
            pool_valid(old(pool)@) ==> pool_valid(final(pool)@),
            final(self).tick_spacing == old(self).tick_spacing,
            debt_rebalanced(old(self)@, old(pool)@, target_cr_wad@, swap_fee_ppm as int) == stage(
                ok,
                final(self)@,
                final(pool)@,
            ),
    {
        if target_cr_wad <= wad() {
            return true;
        }
        let plan: RebalanceResult = match self.rebalance_borrowed_amount(
            pool,
            None,
            target_cr_wad,
            swap_fee_ppm,
        ) {
            Some(x) => x,
            None => return false,
        };
        if plan.mode == 0 || plan.amount.is_zero() {
            return true;
        }
        if plan.mode == 1 {
            self.lever(pool, plan.amount, plan.swap_fee)
        } else {
            self.delever(pool, &plan)
        }
    }

    /// Borrows or repays so that the ratio of value to debt comes close to a target. The
    /// swap fee is in millionths.
    pub fn rebalance_debt(&mut self, pool: &mut CorePool, target_cr_wad: U256, swap_fee_ppm: u128)
        requires
            old(self).wf(),
            old(pool).wf(),
            debt_rebalanced(old(self)@, old(pool)@, target_cr_wad@, swap_fee_ppm as int) is Some,
        ensures
            final(pool).wf(),
            pool_valid(old(pool)@) ==> pool_valid(final(pool)@),
            final(self).tick_spacing == old(self).tick_spacing,
            debt_rebalanced(old(self)@, old(pool)@, target_cr_wad@, swap_fee_ppm as int) == Some((final(self)@, final(pool)@)),
    {
        let _ = self.try_rebalance_debt(pool, target_cr_wad, swap_fee_ppm);
    }

    /// As `rebalance_debt_dlv`; false where it fails, with vault and pool left partway.
    pub fn try_rebalance_debt_dlv(&mut self, pool: &mut CorePool, target_cr_wad: U256, swap_fee_ppm: u128) -> (ok: bool)
        requires
            old(self).wf(),
            old(pool).wf(),
        ensures
            final(pool).wf(),
            pool_valid(old(pool)@) ==> pool_valid(final(pool)@),
            final(self).tick_spacing == old(self).tick_spacing,
            standing_debt_rebalanced(old(self)@, old(pool)@, target_cr_wad@, swap_fee_ppm as int) == stage(
                ok,
                final(self)@,
                final(pool)@,
            ),
    {
        if self.virtual_debt.is_zero() {
            return true;
        }
        self.try_rebalance_debt(pool, target_cr_wad, swap_fee_ppm)
    }

    /// As `rebalance_debt`, and nothing without a debt.
    pub fn rebalance_debt_dlv(&mut self, pool: &mut CorePool, target_cr_wad: U256, swap_fee_ppm: u128)
        requires
            old(self).wf(),
            old(pool).wf(),
            standing_debt_rebalanced(old(self)@, old(pool)@, target_cr_wad@, swap_fee_ppm as int) is Some,
        ensures
            final(pool).wf(),
            pool_valid(old(pool)@) ==> pool_valid(final(pool)@),
            final(self).tick_spacing == old(self).tick_spacing,
            standing_debt_rebalanced(old(self)@, old(pool)@, target_cr_wad@, swap_fee_ppm as int) == Some((final(self)@, final(pool)@)),
    {
        let _ = self.try_rebalance_debt_dlv(pool, target_cr_wad, swap_fee_ppm);
    }

    fn regulate_by(&mut self, volatile_value: U256, stable: U256, tc: U256) -> (r: &'static str)
        requires
            old(self)@.debt != 0,
            tc@ > one_wad(),
        ensures
            (final(self)@, r@) == regulated_by(old(self)@, volatile_value@, stable@, tc@),
            final(self).tick_spacing == old(self).tick_spacing,
    {
        let w: U256 = wad();
        let vol0: bool = self.pool_config.is_volatile_token0();
        let debt: U256 = self.virtual_debt;
        let gross: U256 = stable + volatile_value;
        let ratio: U256 = mul_div(gross, w, debt);
        let have: U256 = gross * w;
        let want: U256 = tc * debt;
        let denominator: U256 = saturating_sub(tc, w);
        if ratio > tc && volatile_value > stable {
            if have > want {
                let correction: U256 = saturating_sub(have, want) / denominator;
                let amount: U256 = min_u256(saturating_sub(volatile_value, stable), correction);
                if !amount.is_zero() {
                    self.virtual_debt = debt + amount;
                    if vol0 {
                        self.idle1 = self.idle1 + amount;
                    } else {
                        self.idle0 = self.idle0 + amount;
                    }
                    return "mint";
                }
            }
        } else if ratio < tc && stable > volatile_value {
            if want > have {
                let correction: U256 = saturating_sub(want, have) / denominator;
                let stable_idle: U256 = if vol0 {
                    self.idle1
                } else {
                    self.idle0
                };
                let amount: U256 = min_u256(
                    min_u256(
                        min_u256(saturating_sub(stable, volatile_value), correction),
                        debt,
                    ),
                    stable_idle,
                );
                if !amount.is_zero() {
                    self.virtual_debt = debt - amount;
                    if vol0 {
                        self.idle1 = self.idle1 - amount;
                    } else {
                        self.idle0 = self.idle0 - amount;
                    }
                    return "burn";
                }
            }
        }
        "noop"
    }

    /// As `regulate_debt`; `None`, with the vault as it was, where an amount does not
    /// exist.
    pub fn try_regulate_debt(
        &mut self,
        pool: &CorePool,
        override_sqrt: Option<U256>,
        target_cr_wad: U256,
    ) -> (r: Option<&'static str>)
        requires
            pool.wf(),
        ensures
            final(self).tick_spacing == old(self).tick_spacing,
            regulated(old(self)@, pool@, opt(override_sqrt), target_cr_wad@) == (match r {
                Some(x) => Some((final(self)@, x@)),
                None => None,
            }),
            r is None ==> *final(self) == *old(self),
    {
        if self.virtual_debt.is_zero() || target_cr_wad <= wad() {
            return Some("noop");
        }
        let vol0: bool = self.pool_config.is_volatile_token0();
        let price: U256 = pool_price(price_choice(pool, override_sqrt));
        let (t0, t1) = match self.try_totals(pool, pool.sqrt_price_x96(), false) {
            Some(x) => x,
            None => return None,
        };
        if !vol0 && price.is_zero() {
            return Some("noop");
        }
        let (volatile, stable) = roles(vol0, t0, t1);
        let value: U256 = volatile_to_stable(vol0, volatile, price);
        Some(self.regulate_by(value, stable, target_cr_wad))
    }

    /// Takes on or pays off debt in stable tokens alone, where that brings the ratio of
    /// value to debt closer to a target and also evens out the two sides. Returns
    /// `mint`, `burn` or `noop`.
    pub fn regulate_debt(
        &mut self,
        pool: &CorePool,
        override_sqrt: Option<U256>,
        target_cr_wad: U256,
    ) -> (r: &'static str)
        requires
            pool.wf(),
            regulated(old(self)@, pool@, opt(override_sqrt), target_cr_wad@) is Some,
        ensures
            final(self).tick_spacing == old(self).tick_spacing,
            regulated(old(self)@, pool@, opt(override_sqrt), target_cr_wad@) == Some(
                (final(self)@, r@),
            ),
    {
        match self.try_regulate_debt(pool, override_sqrt, target_cr_wad) {
            Some(x) => x,
            None => "noop",
        }
    }

    /// As `active_rebalance_swap`; false, with the vault as it was, where an amount does
    /// not exist.
    pub fn try_active_rebalance_swap(
        &mut self,
        override_sqrt: Option<U256>,
        pool: &CorePool,
        swap_fee_ppm: u128,
    ) -> (ok: bool)
        ensures
            final(self).tick_spacing == old(self).tick_spacing,
            evened(
                old(self)@,
                price_of(price_or(pool@, opt(override_sqrt))),
                swap_fee_ppm as int,
            ) == (if ok {
                Some(final(self)@)
            } else {
                None
            }),
            !ok ==> *final(self) == *old(self),
    {
        let price: U256 = pool_price(price_choice(pool, override_sqrt));
        let vol0: bool = self.pool_config.is_volatile_token0();
        let (volatile, stable) = roles(vol0, self.idle0, self.idle1);
        let value: U256 = volatile_to_stable(vol0, volatile, price);
        let fee: U256 = U256::from_u128(swap_fee_ppm);
        let denom: U256 = fee_den() + fee_den() - fee;
        let after_fee: U256 = fee_den() - fee;
        let diff: U256 = distance(stable, value);
        if price.is_zero() || diff.is_zero() || denom.is_zero() {
            return true;
        }
        let amount: U256 = match try_mul_div_rounding_up(diff, fee_den(), denom) {
            Some(x) => x,
            None => return false,
        };
        if stable > value {
            let paid: U256 = min_u256(amount, stable);
            let got: U256 = stable_to_volatile(vol0, mul_div(paid, after_fee, fee_den()), price);
            if paid.is_zero() || got.is_zero() {
                return true;
            }
            if vol0 {
                self.idle1 = self.idle1 - paid;
                self.idle0 = self.idle0 + got;
            } else {
                self.idle0 = self.idle0 - paid;
                self.idle1 = self.idle1 + got;
            }
        } else {
            let paid: U256 = min_u256(stable_to_volatile(vol0, amount, price), volatile);
            let got: U256 = mul_div(volatile_to_stable(vol0, paid, price), after_fee, fee_den());
            if amount.is_zero() || paid.is_zero() || got.is_zero() {
                return true;
            }
            if vol0 {
                self.idle0 = self.idle0 - paid;
                self.idle1 = self.idle1 + got;
            } else {
                self.idle1 = self.idle1 - paid;
                self.idle0 = self.idle0 + got;
            }
        }
        true
    }

    /// Swaps one side of what is idle for the other at a price, so that both are worth
    /// the same. The swap fee is in millionths.
    pub fn active_rebalance_swap(
        &mut self,
        override_sqrt: Option<U256>,
        pool: &CorePool,
        swap_fee_ppm: u128,
    )
        requires
            evened(
                old(self)@,
                price_of(price_or(pool@, opt(override_sqrt))),
                swap_fee_ppm as int,
            ) is Some,
        ensures
            final(self).tick_spacing == old(self).tick_spacing,
            evened(
                old(self)@,
                price_of(price_or(pool@, opt(override_sqrt))),
                swap_fee_ppm as int,
            ) == Some(final(self)@),
    {
        let _ = self.try_active_rebalance_swap(override_sqrt, pool, swap_fee_ppm);
    }
}

} // verus!
