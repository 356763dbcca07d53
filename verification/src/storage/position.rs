//! A liquidity position on a price range of a pool.
use vstd::prelude::*;
use crate::decimal::{FeeGrowth, Liquidity, pow10};
use crate::errors::CalcError;
use crate::storage::pool::Pool;
use crate::storage::pool_key::PoolKey;
use crate::storage::tick::{Tick, wrapping_sub_128};
use crate::uint::{U256, pow256};

verus! {

#[derive(Clone, Copy, Debug, PartialEq, Eq, Structural)]
pub struct Position {
    pub pool_key: PoolKey,
    pub liquidity: U256,
    pub lower_tick_index: i32,
    pub upper_tick_index: i32,
    pub fee_growth_inside_x: u128,
    pub fee_growth_inside_y: u128,
    pub seconds_per_liquidity_inside: u128,
    pub last_block_number: u64,
    pub tokens_owed_x: U256,
    pub tokens_owed_y: U256,
}

/// The fee a position of `liquidity` earned while the fee growth inside its
/// range went from `last` to `now` (wrapping), rounded down.
pub open spec fn earned_fee(now: u128, last: u128, liquidity: nat) -> int {
    wrapping_sub_128(now, last) * liquidity / (pow10(33) as int)
}

/// Whether a liquidity of `liquidity` can take `delta` added (`sign`) or removed.
pub open spec fn liquidity_step_ok(liquidity: nat, sign: bool, delta: nat) -> bool {
    if sign { liquidity + delta < pow256() } else { liquidity >= delta }
}

/// The pool as `modify` leaves it: an empty pool's clock moves to
/// `current_timestamp`.
pub open spec fn clock_started(pool: Pool, current_timestamp: u64) -> Pool {
    if pool.liquidity.raw() == 0 {
        Pool { last_timestamp: current_timestamp, ..pool }
    } else {
        pool
    }
}

/// What `update` does: an update that changes nothing of an empty position
/// is refused, then an earned fee beyond 256 bits, then a liquidity step that
/// does not fit; otherwise the earned fees are added to the owed tokens, the
/// new fee growth inside is recorded and the liquidity moves by `delta`. On
/// an error nothing changes.
pub open spec fn update_outcome(before: Position, after: Position, sign: bool, delta: Liquidity,
    fee_growth_inside_x: FeeGrowth, fee_growth_inside_y: FeeGrowth, r: Result<(), CalcError>) -> bool
{
    let fee_x = earned_fee(fee_growth_inside_x.v, before.fee_growth_inside_x, before.liquidity.value());
    let fee_y = earned_fee(fee_growth_inside_y.v, before.fee_growth_inside_y, before.liquidity.value());
    &&& r is Err ==> after == before
    &&& if delta.raw() == 0 && before.liquidity.value() == 0 {
        r == Err::<(), CalcError>(CalcError::EmptyPositionPokes)
    } else if fee_x >= pow256() || fee_y >= pow256() {
        r == Err::<(), CalcError>(CalcError::Overflow)
    } else if !sign && before.liquidity.value() < delta.raw() {
        r == Err::<(), CalcError>(CalcError::InsufficientLiquidity)
    } else if sign && before.liquidity.value() + delta.raw() >= pow256() {
        r == Err::<(), CalcError>(CalcError::Overflow)
    } else {
        &&& r is Ok
        &&& after.liquidity.value() == (if sign {
                before.liquidity.value() + delta.raw() as int
            } else {
                before.liquidity.value() - delta.raw()
            })
        &&& after.fee_growth_inside_x == fee_growth_inside_x.v
        &&& after.fee_growth_inside_y == fee_growth_inside_y.v
        &&& after.tokens_owed_x.value() == before.tokens_owed_x.value() + fee_x
        &&& after.tokens_owed_y.value() == before.tokens_owed_y.value() + fee_y
        &&& after == (Position {
                liquidity: after.liquidity,
                fee_growth_inside_x: after.fee_growth_inside_x,
                fee_growth_inside_y: after.fee_growth_inside_y,
                tokens_owed_x: after.tokens_owed_x,
                tokens_owed_y: after.tokens_owed_y,
                ..before
            })
    }
}

impl Position {
    /// An empty position on the default pool key.
    pub fn default() -> (r: Position)
        ensures
            r.pool_key == PoolKey::default_spec(),
            r.liquidity.value() == 0,
            r.lower_tick_index == 0,
            r.upper_tick_index == 0,
            r.fee_growth_inside_x == 0,
            r.fee_growth_inside_y == 0,
            r.seconds_per_liquidity_inside == 0,
            r.last_block_number == 0,
            r.tokens_owed_x.value() == 0,
            r.tokens_owed_y.value() == 0,
    {
        Position {
            pool_key: PoolKey::default(),
            liquidity: U256::zero(),
            lower_tick_index: 0,
            upper_tick_index: 0,
            fee_growth_inside_x: 0,
            fee_growth_inside_y: 0,
            seconds_per_liquidity_inside: 0,
            last_block_number: 0,
            tokens_owed_x: U256::zero(),
            tokens_owed_y: U256::zero(),
        }
    }

    /// The position's liquidity after adding (`sign`) or removing
    /// `liquidity_delta`; an error where removing takes more than it holds
    /// or adding overflows.
    pub fn calculate_new_liquidity_safely(&self, sign: bool, liquidity_delta: Liquidity) -> (r: Result<U256, CalcError>)
        ensures
            !sign ==> (if self.liquidity.value() < liquidity_delta.raw() {
                r == Err::<U256, CalcError>(CalcError::InsufficientLiquidity)
            } else {
                r matches Ok(l) && l.value() == self.liquidity.value() - liquidity_delta.raw()
            }),
            sign ==> (if self.liquidity.value() + liquidity_delta.raw() >= pow256() {
                r == Err::<U256, CalcError>(CalcError::Overflow)
            } else {
                r matches Ok(l) && l.value() == self.liquidity.value() + liquidity_delta.raw()
            }),
    {
        if !sign && self.liquidity.lt(&liquidity_delta.v) {
            return Err(CalcError::InsufficientLiquidity);
        }
        if sign {
            match self.liquidity.checked_add(&liquidity_delta.v) {
                Some(l) => Ok(l),
                None => Err(CalcError::Overflow),
            }
        } else {
            match self.liquidity.checked_sub(&liquidity_delta.v) {
                Some(l) => Ok(l),
                None => Err(CalcError::Underflow),
            }
        }
    }

    /// Settles the fees the position earned since its last update (the fee
    /// growth inside its range going from the stored values to the given
    /// ones, times its liquidity), records the new fee growth inside, and
    /// adds (`sign`) or removes `liquidity_delta`. An update that changes
    /// nothing of an empty position is refused. On an error nothing
    /// changes. The owed tokens must stay in range.
    pub fn update(&mut self, sign: bool, liquidity_delta: Liquidity, fee_growth_inside_x: FeeGrowth,
        fee_growth_inside_y: FeeGrowth) -> (r: Result<(), CalcError>)
        requires
            !(liquidity_delta.raw() == 0 && old(self).liquidity.value() == 0)
                && earned_fee(fee_growth_inside_x.v, old(self).fee_growth_inside_x, old(self).liquidity.value()) < pow256()
                && earned_fee(fee_growth_inside_y.v, old(self).fee_growth_inside_y, old(self).liquidity.value()) < pow256()
                && liquidity_step_ok(old(self).liquidity.value(), sign, liquidity_delta.raw())
                ==> old(self).tokens_owed_x.value()
                    + earned_fee(fee_growth_inside_x.v, old(self).fee_growth_inside_x, old(self).liquidity.value()) < pow256()
                && old(self).tokens_owed_y.value()
                    + earned_fee(fee_growth_inside_y.v, old(self).fee_growth_inside_y, old(self).liquidity.value()) < pow256(),
        ensures
            update_outcome(*old(self), *final(self), sign, liquidity_delta, fee_growth_inside_x, fee_growth_inside_y, r),
    {
        if liquidity_delta.v.is_zero() && self.liquidity.is_zero() {
            return Err(CalcError::EmptyPositionPokes);
        }
        let liquidity = Liquidity::new(self.liquidity);
        let growth_x = fee_growth_inside_x.unchecked_sub(&FeeGrowth::new(self.fee_growth_inside_x));
        let tokens_owed_x = match growth_x.to_fee(&liquidity) {
            Some(t) => t,
            None => return Err(CalcError::Overflow),
        };
        let growth_y = fee_growth_inside_y.unchecked_sub(&FeeGrowth::new(self.fee_growth_inside_y));
        let tokens_owed_y = match growth_y.to_fee(&liquidity) {
            Some(t) => t,
            None => return Err(CalcError::Overflow),
        };
        let new_liquidity = match self.calculate_new_liquidity_safely(sign, liquidity_delta) {
            Ok(l) => l,
            Err(e) => return Err(e),
        };
        self.liquidity = new_liquidity;
        self.fee_growth_inside_x = fee_growth_inside_x.v;
        self.fee_growth_inside_y = fee_growth_inside_y.v;
        self.tokens_owed_x = self.tokens_owed_x.add(&tokens_owed_x.v);
        self.tokens_owed_y = self.tokens_owed_y.add(&tokens_owed_y.v);
        Ok(())
    }

    /// Changes the position by `liquidity_delta` (added with `add`, else
    /// removed): an empty pool's clock moves to `current_timestamp`, the fee
    /// growth inside the position's range is taken from
    /// `calculate_fee_growth_inside` (the price math's function of the two
    /// ticks' outside growths, the current tick and the global growths), and
    /// the position is updated with it. The pool's liquidity and the two
    /// ticks are left as they are.
    pub fn modify<
        F: Fn((i32, FeeGrowth, FeeGrowth), (i32, FeeGrowth, FeeGrowth), (i32, FeeGrowth, FeeGrowth)) -> (FeeGrowth, FeeGrowth),
    >(
        &mut self,
        pool: &mut Pool,
        upper_tick: &mut Tick,
        lower_tick: &mut Tick,
        liquidity_delta: Liquidity,
        add: bool,
        current_timestamp: u64,
        tick_spacing: u16,
        calculate_fee_growth_inside: F,
    ) -> (r: Result<(), CalcError>)
        requires
            forall|a: (i32, FeeGrowth, FeeGrowth), b: (i32, FeeGrowth, FeeGrowth), c: (i32, FeeGrowth, FeeGrowth)|
                calculate_fee_growth_inside.requires((a, b, c)),
            forall|g: (FeeGrowth, FeeGrowth)| #[trigger] calculate_fee_growth_inside.ensures((
                (old(lower_tick).index, FeeGrowth { v: old(lower_tick).fee_growth_outside_x }, FeeGrowth { v: old(lower_tick).fee_growth_outside_y }),
                (old(upper_tick).index, FeeGrowth { v: old(upper_tick).fee_growth_outside_x }, FeeGrowth { v: old(upper_tick).fee_growth_outside_y }),
                (old(pool).current_tick_index, old(pool).fee_growth_global_x, old(pool).fee_growth_global_y)), g)
                && !(liquidity_delta.raw() == 0 && old(self).liquidity.value() == 0)
                && earned_fee(g.0.v, old(self).fee_growth_inside_x, old(self).liquidity.value()) < pow256()
                && earned_fee(g.1.v, old(self).fee_growth_inside_y, old(self).liquidity.value()) < pow256()
                && liquidity_step_ok(old(self).liquidity.value(), add, liquidity_delta.raw())
                ==> old(self).tokens_owed_x.value() + earned_fee(g.0.v, old(self).fee_growth_inside_x, old(self).liquidity.value()) < pow256()
                    && old(self).tokens_owed_y.value() + earned_fee(g.1.v, old(self).fee_growth_inside_y, old(self).liquidity.value()) < pow256(),
        ensures
            *final(upper_tick) == *old(upper_tick),
            *final(lower_tick) == *old(lower_tick),
            *final(pool) == clock_started(*old(pool), current_timestamp),
            exists|g: (FeeGrowth, FeeGrowth)| #[trigger] calculate_fee_growth_inside.ensures((
                (old(lower_tick).index, FeeGrowth { v: old(lower_tick).fee_growth_outside_x }, FeeGrowth { v: old(lower_tick).fee_growth_outside_y }),
                (old(upper_tick).index, FeeGrowth { v: old(upper_tick).fee_growth_outside_x }, FeeGrowth { v: old(upper_tick).fee_growth_outside_y }),
                (old(pool).current_tick_index, old(pool).fee_growth_global_x, old(pool).fee_growth_global_y)), g)
                && update_outcome(*old(self), *final(self), add, liquidity_delta, g.0, g.1, r),
    {
        if pool.liquidity.is_zero() {
            pool.last_timestamp = current_timestamp;
        }
        let growth = calculate_fee_growth_inside(
            (lower_tick.index, FeeGrowth { v: lower_tick.fee_growth_outside_x }, FeeGrowth { v: lower_tick.fee_growth_outside_y }),
            (upper_tick.index, FeeGrowth { v: upper_tick.fee_growth_outside_x }, FeeGrowth { v: upper_tick.fee_growth_outside_y }),
            (pool.current_tick_index, pool.fee_growth_global_x, pool.fee_growth_global_y),
        );
        let (fee_growth_inside_x, fee_growth_inside_y) = growth;
        let r = self.update(add, liquidity_delta, fee_growth_inside_x, fee_growth_inside_y);
        assert(calculate_fee_growth_inside.ensures((
            (old(lower_tick).index, FeeGrowth { v: old(lower_tick).fee_growth_outside_x }, FeeGrowth { v: old(lower_tick).fee_growth_outside_y }),
            (old(upper_tick).index, FeeGrowth { v: old(upper_tick).fee_growth_outside_x }, FeeGrowth { v: old(upper_tick).fee_growth_outside_y }),
            (old(pool).current_tick_index, old(pool).fee_growth_global_x, old(pool).fee_growth_global_y)), growth));
        r
    }
}

/// Whether two positions agree on their pool, range, liquidity, fee
/// growth inside and owed tokens (the timing fields are not compared).
pub fn positions_equals(position_a: Position, position_b: Position) -> (r: bool)
    ensures
        r == (position_a.fee_growth_inside_x == position_b.fee_growth_inside_x
            && position_a.fee_growth_inside_y == position_b.fee_growth_inside_y
            && position_a.liquidity == position_b.liquidity
            && position_a.lower_tick_index == position_b.lower_tick_index
            && position_a.upper_tick_index == position_b.upper_tick_index
            && position_a.pool_key == position_b.pool_key
            && position_a.tokens_owed_x == position_b.tokens_owed_x
            && position_a.tokens_owed_y == position_b.tokens_owed_y),
{
    let mut equal = true;
    if position_a.fee_growth_inside_x != position_b.fee_growth_inside_x {
        equal = false;
    }
    if position_a.fee_growth_inside_y != position_b.fee_growth_inside_y {
        equal = false;
    }
    if position_a.liquidity != position_b.liquidity {
        equal = false;
    }
    if position_a.lower_tick_index != position_b.lower_tick_index {
        equal = false;
    }
    if position_a.upper_tick_index != position_b.upper_tick_index {
        equal = false;
    }
    if position_a.pool_key != position_b.pool_key {
        equal = false;
    }
    if position_a.tokens_owed_x != position_b.tokens_owed_x {
        equal = false;
    }
    if position_a.tokens_owed_y != position_b.tokens_owed_y {
        equal = false;
    }
    equal
}

} // verus!
