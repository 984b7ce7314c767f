//! A front for the operations of a pool that it borrows.
use crate::core_pool::CorePool;
use crate::pool_model::{
    burned, minted, pool_collected, pool_valid, swap_amounts, swap_end, swapped,
};
use crate::sqrt_price_math::opt;
use crate::types::{I256, U256};
use vstd::prelude::*;

verus! {

pub struct Engine<'a> {
    pub pool: &'a mut CorePool,
}

/// The two amounts of a mint, a burn or a swap.
#[derive(Debug, Clone, Copy)]
pub struct MintBurnResult {
    pub amount0: I256,
    pub amount1: I256,
}

/// The two amounts of a collection.
#[derive(Debug, Clone, Copy)]
pub struct CollectResult {
    pub amount0: U256,
    pub amount1: U256,
}

impl<'a> Engine<'a> {
    /// The pool as it stands.
    pub open spec fn state(&self) -> CorePool {
        *self.pool
    }

    pub fn new(pool: &'a mut CorePool) -> (r: Self)
        ensures
            r.state() == *old(pool),
            *final(r.pool) == *final(pool),
    {
        Engine { pool }
    }

    /// Adds liquidity to a position.
    pub fn mint(&mut self, recipient: &str, tick_lower: i32, tick_upper: i32, amount: I256) -> (r:
        MintBurnResult)
        requires
            old(self).state().wf(),
            minted(
                old(self).state()@,
                recipient@,
                tick_lower as int,
                tick_upper as int,
                amount@,
            ) is Some,
        ensures
            *final(final(self).pool) == *final(old(self).pool),
            final(self).state().wf(),
            pool_valid(old(self).state()@) ==> pool_valid(final(self).state()@),
            minted(
                old(self).state()@,
                recipient@,
                tick_lower as int,
                tick_upper as int,
                amount@,
            ) == Some((final(self).state()@, r.amount0@, r.amount1@)),
    {
        let (amount0, amount1) = self.pool.mint(recipient, tick_lower, tick_upper, amount);
        MintBurnResult { amount0, amount1 }
    }

    /// Removes liquidity from a position.
    pub fn burn(&mut self, owner: &str, tick_lower: i32, tick_upper: i32, amount: I256) -> (r:
        MintBurnResult)
        requires
            old(self).state().wf(),
            burned(
                old(self).state()@,
                owner@,
                tick_lower as int,
                tick_upper as int,
                amount@,
            ) is Some,
        ensures
            *final(final(self).pool) == *final(old(self).pool),
            final(self).state().wf(),
            pool_valid(old(self).state()@) ==> pool_valid(final(self).state()@),
            burned(
                old(self).state()@,
                owner@,
                tick_lower as int,
                tick_upper as int,
                amount@,
            ) == Some((final(self).state()@, r.amount0@, r.amount1@)),
    {
        let (amount0, amount1) = self.pool.burn(owner, tick_lower, tick_upper, amount);
        MintBurnResult { amount0, amount1 }
    }

    /// Pays out what a position is owed, up to what is requested.
    pub fn collect(
        &mut self,
        recipient: &str,
        tick_lower: i32,
        tick_upper: i32,
        amount0_requested: U256,
        amount1_requested: U256,
    ) -> (r: CollectResult)
        requires
            old(self).state().wf(),
            pool_collected(
                old(self).state()@,
                recipient@,
                tick_lower as int,
                tick_upper as int,
                amount0_requested@,
                amount1_requested@,
            ) is Some,
        ensures
            *final(final(self).pool) == *final(old(self).pool),
            final(self).state().wf(),
            pool_valid(old(self).state()@) ==> pool_valid(final(self).state()@),
            pool_collected(
                old(self).state()@,
                recipient@,
                tick_lower as int,
                tick_upper as int,
                amount0_requested@,
                amount1_requested@,
            ) == Some((final(self).state()@, r.amount0@, r.amount1@)),
    {
        let (amount0, amount1) = self.pool.collect(
            recipient,
            tick_lower,
            tick_upper,
            amount0_requested,
            amount1_requested,
        );
        CollectResult { amount0, amount1 }
    }

    /// Swaps up to a price limit.
    pub fn swap(
        &mut self,
        zero_for_one: bool,
        amount_specified: I256,
        sqrt_price_limit_x96: Option<U256>,
    ) -> (r: MintBurnResult)
        requires
            old(self).state().valid(),
            swap_end(
                old(self).state()@,
                zero_for_one,
                amount_specified@,
                opt(sqrt_price_limit_x96),
            ) is Some,
        ensures
            *final(final(self).pool) == *final(old(self).pool),
            final(self).state().valid(),
            ({
                let end = swap_end(
                    old(self).state()@,
                    zero_for_one,
                    amount_specified@,
                    opt(sqrt_price_limit_x96),
                )->0;
                &&& final(self).state()@ == swapped(old(self).state()@, zero_for_one, end)
                &&& (r.amount0@, r.amount1@) == swap_amounts(zero_for_one, amount_specified@, end)
            }),
    {
        let (amount0, amount1) = self.pool.swap(
            zero_for_one,
            amount_specified,
            sqrt_price_limit_x96,
        );
        MintBurnResult { amount0, amount1 }
    }

    pub fn pool(&self) -> (r: &CorePool)
        ensures
            *r == self.state(),
    {
        self.pool
    }

    pub fn pool_mut(&mut self) -> (r: &mut CorePool)
        ensures
            *r == old(self).state(),
            final(self).state() == *final(r),
            *final(final(self).pool) == *final(old(self).pool),
    {
        self.pool
    }
}

} // verus!
