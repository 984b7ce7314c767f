//! Liquidity changes.
use crate::arith::p128;
use crate::types::{i256_bits, I256, MAX_UINT128, U256};
use vstd::prelude::*;

verus! {

/// `x + y` where both `x` and the sum lie in `0 .. 2^128`. An `x` of 2^128 or
/// more, a sum below zero and a sum of 2^128 or more fail.
pub open spec fn liquidity_sum(x: int, y: int) -> Option<int> {
    if x < p128() && 0 <= x + y < p128() {
        Some(x + y)
    } else {
        None
    }
}

/// `x + y`, or `None` where the liquidity or the sum is out of range.
pub fn try_add_delta(x: U256, y: I256) -> (r: Option<U256>)
    ensures
        r matches Some(s) ==> liquidity_sum(x@, y@) == Some(s@),
        r is None ==> liquidity_sum(x@, y@) is None,
{
    if x > MAX_UINT128() {
        return None;
    }
    proof {
        i256_bits(y);
    }
    if y.is_negative() {
        let down: U256 = y.abs();
        if x < down {
            None
        } else {
            Some(x - down)
        }
    } else {
        let sum: U256 = x + y.0;
        if sum > MAX_UINT128() {
            None
        } else {
            Some(sum)
        }
    }
}

/// `x + y` for a liquidity `x` and a change `y` that keeps it in range.
pub fn add_delta(x: U256, y: I256) -> (r: U256)
    requires
        liquidity_sum(x@, y@) is Some,
    ensures
        r@ == x@ + y@,
{
    match try_add_delta(x, y) {
        Some(r) => r,
        None => x,
    }
}

} // verus!
