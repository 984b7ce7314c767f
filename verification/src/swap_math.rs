//! One step of a swap inside a range of constant liquidity.
use crate::arith::wrap;
use crate::full_math::{ceil_mul_div, floor_mul_div, mul_div, try_mul_div_rounding_up};
use crate::sqrt_price_math::{
    amount0_delta, amount1_delta, next_price_input, next_price_output, opt,
    try_get_amount0_delta_unsigned, try_get_amount1_delta_unsigned,
    try_get_next_sqrt_price_from_input, try_get_next_sqrt_price_from_output,
};
use crate::types::{i256_bits, FeeAmount, I256, MAX_FEE, U256};
use vstd::prelude::*;

verus! {

/// What one step of a swap does.
pub struct SwapStepResult {
    pub sqrt_ratio_next_x96: U256,
    pub amount_in: U256,
    pub amount_out: U256,
    pub fee_amount: U256,
}

/// `SwapStepResult` by its views.
#[verifier::ext_equal]
pub ghost struct StepView {
    pub next: int,
    pub amount_in: int,
    pub amount_out: int,
    pub fee: int,
}

impl View for SwapStepResult {
    type V = StepView;

    open spec fn view(&self) -> StepView {
        StepView {
            next: self.sqrt_ratio_next_x96@,
            amount_in: self.amount_in@,
            amount_out: self.amount_out@,
            fee: self.fee_amount@,
        }
    }
}

/// The input that moves the price from `from` to `to`, rounded up.
#[verifier::opaque]
pub open spec fn input_between(from: int, to: int, l: int, zero_for_one: bool) -> Option<int> {
    if zero_for_one {
        amount0_delta(to, from, l, true)
    } else {
        amount1_delta(from, to, l, true)
    }
}

/// The output that moving the price from `from` to `to` gives, rounded down.
#[verifier::opaque]
pub open spec fn output_between(from: int, to: int, l: int, zero_for_one: bool) -> Option<int> {
    if zero_for_one {
        amount1_delta(to, from, l, false)
    } else {
        amount0_delta(from, to, l, false)
    }
}

/// The price that a step reaches: the target where what remains pays for it, else
/// the price that spending (or drawing) what remains gives.
#[verifier::opaque]
pub open spec fn step_price(current: int, target: int, l: int, remaining: int, fee: int) -> Option<
    int,
> {
    let zero_for_one = current >= target;
    if remaining >= 0 {
        let spendable = floor_mul_div(remaining, 1_000_000 - fee, 1_000_000);
        match input_between(current, target, l, zero_for_one) {
            Some(needed) => if spendable >= needed {
                Some(target)
            } else {
                next_price_input(current, l, spendable, zero_for_one)
            },
            None => None,
        }
    } else {
        match output_between(current, target, l, zero_for_one) {
            Some(available) => if -remaining >= available {
                Some(target)
            } else {
                next_price_output(current, l, -remaining, zero_for_one)
            },
            None => None,
        }
    }
}

/// The fee of a step: all that is left of an exact input that did not reach the
/// target, else the fee's share of the input, rounded up.
#[verifier::opaque]
pub open spec fn step_fee(remaining: int, fee: int, reached: bool, amount_in: int) -> Option<int> {
    if remaining >= 0 && !reached {
        Some(wrap(remaining - amount_in))
    } else {
        ceil_mul_div(amount_in, fee, 1_000_000 - fee)
    }
}

/// One step from `current` toward `target` at liquidity `l`. `remaining` is what is
/// left of the input, or minus what is left of the output; `fee` is in millionths.
#[verifier::opaque]
pub open spec fn swap_step(current: int, target: int, l: int, remaining: int, fee: int) -> Option<
    StepView,
> {
    let zero_for_one = current >= target;
    match step_price(current, target, l, remaining, fee) {
        None => None,
        Some(next) => match (
            input_between(current, next, l, zero_for_one),
            output_between(current, next, l, zero_for_one),
        ) {
            (Some(amount_in), Some(given)) => {
                let amount_out = if remaining < 0 && given > -remaining {
                    -remaining
                } else {
                    given
                };
                match step_fee(remaining, fee, next == target, amount_in) {
                    Some(fee) => Some(StepView { next, amount_in, amount_out, fee }),
                    None => None,
                }
            },
            _ => None,
        },
    }
}

fn try_input_between(from: U256, to: U256, liquidity: U256, zero_for_one: bool) -> (r: Option<U256>)
    ensures
        opt(r) == input_between(from@, to@, liquidity@, zero_for_one),
{
    proof {
        reveal(input_between);
    }
    if zero_for_one {
        try_get_amount0_delta_unsigned(to, from, liquidity, true)
    } else {
        try_get_amount1_delta_unsigned(from, to, liquidity, true)
    }
}

fn try_output_between(from: U256, to: U256, liquidity: U256, zero_for_one: bool) -> (r: Option<
    U256,
>)
    ensures
        opt(r) == output_between(from@, to@, liquidity@, zero_for_one),
{
    proof {
        reveal(output_between);
    }
    if zero_for_one {
        try_get_amount1_delta_unsigned(to, from, liquidity, false)
    } else {
        try_get_amount0_delta_unsigned(from, to, liquidity, false)
    }
}

fn try_step_price(
    current: U256,
    target: U256,
    liquidity: U256,
    remaining: I256,
    fee: U256,
) -> (r: Option<U256>)
    requires
        fee@ <= 1_000_000,
    ensures
        opt(r) == step_price(current@, target@, liquidity@, remaining@, fee@),
{
    let zero_for_one: bool = current >= target;
    proof {
        reveal(step_price);
        i256_bits(remaining);
    }
    if !remaining.is_negative() {
        let spendable: U256 = mul_div(remaining.0, MAX_FEE() - fee, MAX_FEE());
        let needed: U256 = match try_input_between(current, target, liquidity, zero_for_one) {
            Some(x) => x,
            None => return None,
        };
        if spendable >= needed {
            Some(target)
        } else {
            try_get_next_sqrt_price_from_input(current, liquidity, spendable, zero_for_one)
        }
    } else {
        let wanted: U256 = remaining.abs();
        let available: U256 = match try_output_between(current, target, liquidity, zero_for_one) {
            Some(x) => x,
            None => return None,
        };
        if wanted >= available {
            Some(target)
        } else {
            try_get_next_sqrt_price_from_output(current, liquidity, wanted, zero_for_one)
        }
    }
}

fn try_step_fee(remaining: I256, fee: U256, reached: bool, amount_in: U256) -> (r: Option<U256>)
    requires
        fee@ <= 1_000_000,
    ensures
        opt(r) == step_fee(remaining@, fee@, reached, amount_in@),
{
    proof {
        reveal(step_fee);
        i256_bits(remaining);
    }
    if !remaining.is_negative() && !reached {
        Some(remaining.0 - amount_in)
    } else {
        try_mul_div_rounding_up(amount_in, fee, MAX_FEE() - fee)
    }
}

fn step_output(remaining: I256, given: U256) -> (r: U256)
    ensures
        r@ == (if remaining@ < 0 && given@ > -remaining@ {
            -remaining@
        } else {
            given@
        }),
{
    if remaining.is_negative() && given > remaining.abs() {
        remaining.abs()
    } else {
        given
    }
}

/// One step of a swap; `None` where its arithmetic leaves its range.
pub fn try_compute_swap_step(
    sqrt_ratio_current_x96: U256,
    sqrt_ratio_target_x96: U256,
    liquidity: U256,
    amount_remaining: I256,
    fee_pips: FeeAmount,
) -> (r: Option<SwapStepResult>)
    ensures
        r is None == swap_step(
            sqrt_ratio_current_x96@,
            sqrt_ratio_target_x96@,
            liquidity@,
            amount_remaining@,
            fee_pips.millionths(),
        ) is None,
        r matches Some(s) ==> swap_step(
            sqrt_ratio_current_x96@,
            sqrt_ratio_target_x96@,
            liquidity@,
            amount_remaining@,
            fee_pips.millionths(),
        ) == Some(s@),
{
    proof {
        reveal(swap_step);
    }
    let current: U256 = sqrt_ratio_current_x96;
    let target: U256 = sqrt_ratio_target_x96;
    let zero_for_one: bool = current >= target;
    let fee: U256 = fee_pips.as_u256();
    let next: U256 = match try_step_price(current, target, liquidity, amount_remaining, fee) {
        Some(x) => x,
        None => return None,
    };
    let amount_in: U256 = match try_input_between(current, next, liquidity, zero_for_one) {
        Some(x) => x,
        None => return None,
    };
    let given: U256 = match try_output_between(current, next, liquidity, zero_for_one) {
        Some(x) => x,
        None => return None,
    };
    let amount_out: U256 = step_output(amount_remaining, given);
    let fee_amount: U256 = match try_step_fee(amount_remaining, fee, next == target, amount_in) {
        Some(x) => x,
        None => return None,
    };
    Some(SwapStepResult { sqrt_ratio_next_x96: next, amount_in, amount_out, fee_amount })
}

/// One step of a swap.
pub fn compute_swap_step(
    sqrt_ratio_current_x96: U256,
    sqrt_ratio_target_x96: U256,
    liquidity: U256,
    amount_remaining: I256,
    fee_pips: FeeAmount,
) -> (r: SwapStepResult)
    requires
        swap_step(
            sqrt_ratio_current_x96@,
            sqrt_ratio_target_x96@,
            liquidity@,
            amount_remaining@,
            fee_pips.millionths(),
        ) is Some,
    ensures
        swap_step(
            sqrt_ratio_current_x96@,
            sqrt_ratio_target_x96@,
            liquidity@,
            amount_remaining@,
            fee_pips.millionths(),
        ) == Some(r@),
{
    match try_compute_swap_step(
        sqrt_ratio_current_x96,
        sqrt_ratio_target_x96,
        liquidity,
        amount_remaining,
        fee_pips,
    ) {
        Some(r) => r,
        None => SwapStepResult {
            sqrt_ratio_next_x96: sqrt_ratio_current_x96,
            amount_in: U256::ZERO(),
            amount_out: U256::ZERO(),
            fee_amount: U256::ZERO(),
        },
    }
}

} // verus!
