//! A tick: a price boundary at which liquidity enters or leaves.
use vstd::prelude::*;
use crate::decimal::{FeeGrowth, Liquidity, SecondsPerLiquidity, SqrtPrice, pow10, lemma_pow10_values};
use crate::errors::CalcError;
use crate::storage::pool::Pool;
use crate::uint::{U256, pow128, pow256};

verus! {

#[derive(Clone, Copy, Debug, PartialEq, Eq, Structural)]
pub struct Tick {
    pub index: i32,
    /// Whether `liquidity_change` is added (true) or taken (false) when the
    /// price crosses the tick upward.
    pub sign: bool,
    pub liquidity_change: U256,
    pub liquidity_gross: U256,
    pub sqrt_price: u128,
    pub fee_growth_outside_x: u128,
    pub fee_growth_outside_y: u128,
    pub seconds_per_liquidity_outside: u128,
    pub seconds_outside: u64,
}

/// The liquidity change with its sign: what crossing upward adds.
pub open spec fn signed_change(t: Tick) -> int {
    if t.sign { t.liquidity_change.value() as int } else { -(t.liquidity_change.value() as int) }
}

/// `a - b` wrapped into `[0, 2^128)`.
pub open spec fn wrapping_sub_128(a: u128, b: u128) -> u128 {
    ((a - b) % (pow128() as int)) as u128
}

/// What crossing a tick does after its timing fields are set: the seconds
/// per liquidity outside flips against the (updated) pool, and the pool's
/// liquidity moves by the tick's change, upward when the pool stands at or
/// above the tick and the change is negative, or below it and positive.
pub open spec fn cross_finish(pool: Pool, tick: Tick, final_pool: Pool, final_spl_outside: u128, r: Result<(), CalcError>) -> bool {
    &&& final_spl_outside == wrapping_sub_128(pool.seconds_per_liquidity_global.v, tick.seconds_per_liquidity_outside)
    &&& if (pool.current_tick_index >= tick.index) != tick.sign {
        if pool.liquidity.raw() + tick.liquidity_change.value() < pow256() {
            &&& r is Ok
            &&& final_pool.liquidity.raw() == pool.liquidity.raw() + tick.liquidity_change.value()
            &&& final_pool == (Pool { liquidity: final_pool.liquidity, ..pool })
        } else {
            r == Err::<(), CalcError>(CalcError::Overflow) && final_pool == pool
        }
    } else {
        if pool.liquidity.raw() >= tick.liquidity_change.value() {
            &&& r is Ok
            &&& final_pool.liquidity.raw() == pool.liquidity.raw() - tick.liquidity_change.value()
            &&& final_pool == (Pool { liquidity: final_pool.liquidity, ..pool })
        } else {
            r == Err::<(), CalcError>(CalcError::Underflow) && final_pool == pool
        }
    }
}

/// What crossing `tick` does to it and to `pool` at `current_timestamp`:
/// everything counted outside the tick flips against the pool's global
/// values (wrapping), the pool's seconds per liquidity is brought up to date
/// through `calculate_global` (the price math's
/// `calculate_seconds_per_liquidity_global`), and the pool's liquidity moves
/// by the tick's change.
pub open spec fn cross_outcome<F: Fn(Liquidity, u64, u64) -> Result<SecondsPerLiquidity, CalcError>>(
    tick: Tick, pool: Pool, tick_after: Tick, pool_after: Pool, current_timestamp: u64,
    calculate_global: F, r: Result<(), CalcError>) -> bool
{
    &&& tick_after.fee_growth_outside_x == wrapping_sub_128(pool.fee_growth_global_x.v, tick.fee_growth_outside_x)
    &&& tick_after.fee_growth_outside_y == wrapping_sub_128(pool.fee_growth_global_y.v, tick.fee_growth_outside_y)
    &&& tick_after.index == tick.index
    &&& tick_after.sign == tick.sign
    &&& tick_after.liquidity_change == tick.liquidity_change
    &&& tick_after.liquidity_gross == tick.liquidity_gross
    &&& tick_after.sqrt_price == tick.sqrt_price
    &&& if current_timestamp < pool.start_timestamp {
        &&& r == Err::<(), CalcError>(CalcError::Underflow)
        &&& pool_after == pool
        &&& tick_after.seconds_outside == tick.seconds_outside
        &&& tick_after.seconds_per_liquidity_outside == tick.seconds_per_liquidity_outside
    } else {
        &&& tick_after.seconds_outside == ((current_timestamp - pool.start_timestamp - tick.seconds_outside)
                % 0x1_0000_0000_0000_0000int) as u64
        &&& pool.liquidity.raw() == 0 ==> cross_finish(
                Pool { last_timestamp: current_timestamp, ..pool }, tick, pool_after,
                tick_after.seconds_per_liquidity_outside, r)
        &&& pool.liquidity.raw() != 0 ==> exists|res: Result<SecondsPerLiquidity, CalcError>|
                #[trigger] calculate_global.ensures((pool.liquidity, current_timestamp, pool.last_timestamp), res)
                && match res {
                    Err(e) => r == Err::<(), CalcError>(e) && pool_after == pool
                        && tick_after.seconds_per_liquidity_outside == tick.seconds_per_liquidity_outside,
                    Ok(delta) => cross_finish(
                        Pool {
                            seconds_per_liquidity_global: SecondsPerLiquidity {
                                v: ((pool.seconds_per_liquidity_global.v + delta.v) % (pow128() as int)) as u128 },
                            last_timestamp: current_timestamp,
                            ..pool
                        },
                        tick, pool_after, tick_after.seconds_per_liquidity_outside, r),
                }
    }
}

/// Whether the gross liquidity can move by `delta`: removing no more than
/// there is, adding without overflow and below the per-tick maximum.
pub open spec fn gross_update_ok(gross: nat, add: bool, delta: nat, max: nat) -> bool {
    if add { gross + delta < pow256() && gross + delta < max } else { gross >= delta }
}

/// What `update` does: the gross liquidity moves by `delta` (added on a
/// deposit), the signed change by `delta` with the sign `is_deposit !=
/// is_upper`; refused (nothing changes) where the gross update is not
/// allowed.
pub open spec fn update_outcome(before: Tick, after: Tick, delta: Liquidity, max_liquidity_per_tick: Liquidity,
    is_upper: bool, is_deposit: bool, r: Result<(), CalcError>) -> bool
{
    &&& r is Err ==> after == before
    &&& r is Ok <==> gross_update_ok(before.liquidity_gross.value(), is_deposit, delta.raw(), max_liquidity_per_tick.raw())
    &&& r is Ok ==> {
        &&& after.liquidity_gross.value() == (if is_deposit {
                before.liquidity_gross.value() + delta.raw() as int
            } else {
                before.liquidity_gross.value() - delta.raw()
            })
        &&& signed_change(after) == signed_change(before)
            + (if is_deposit != is_upper { delta.raw() as int } else { -(delta.raw() as int) })
        &&& after == (Tick { sign: after.sign, liquidity_change: after.liquidity_change,
                liquidity_gross: after.liquidity_gross, ..before })
    }
}

impl Tick {
    /// Tick 0 with no liquidity and a price of one.
    pub fn default() -> (r: Tick)
        ensures
            r.index == 0,
            !r.sign,
            r.liquidity_change.value() == 0,
            r.liquidity_gross.value() == 0,
            r.sqrt_price == pow10(24),
            r.fee_growth_outside_x == 0,
            r.fee_growth_outside_y == 0,
            r.seconds_per_liquidity_outside == 0,
            r.seconds_outside == 0,
    {
        Tick {
            index: 0,
            sign: false,
            liquidity_change: U256::zero(),
            liquidity_gross: U256::zero(),
            sqrt_price: SqrtPrice::one().v,
            fee_growth_outside_x: 0,
            fee_growth_outside_y: 0,
            seconds_per_liquidity_outside: 0,
            seconds_outside: 0,
        }
    }

    /// A new tick at `index`, whose price `sqrt_price` is (the square root of
    /// the price at `index`). A tick at or below the pool's current tick
    /// counts everything so far as outside it: the pool's fee growth,
    /// seconds per liquidity and seconds since the pool's start.
    pub fn create(index: i32, pool: &Pool, current_timestamp: u64, sqrt_price: SqrtPrice) -> (r: Tick)
        requires
            index <= pool.current_tick_index ==> current_timestamp >= pool.start_timestamp,
        ensures
            r.index == index,
            r.sign,
            r.liquidity_change.value() == 0,
            r.liquidity_gross.value() == 0,
            r.sqrt_price == sqrt_price.v,
            index <= pool.current_tick_index ==> {
                &&& r.fee_growth_outside_x == pool.fee_growth_global_x.v
                &&& r.fee_growth_outside_y == pool.fee_growth_global_y.v
                &&& r.seconds_outside == current_timestamp - pool.start_timestamp
                &&& r.seconds_per_liquidity_outside == pool.seconds_per_liquidity_global.v
            },
            index > pool.current_tick_index ==> {
                &&& r.fee_growth_outside_x == 0
                &&& r.fee_growth_outside_y == 0
                &&& r.seconds_outside == 0
                &&& r.seconds_per_liquidity_outside == 0
            },
    {
        let below_current_tick = index <= pool.current_tick_index;
        Tick {
            index,
            sign: true,
            liquidity_change: U256::zero(),
            liquidity_gross: U256::zero(),
            sqrt_price: sqrt_price.v,
            fee_growth_outside_x: if below_current_tick { pool.fee_growth_global_x.v } else { 0 },
            fee_growth_outside_y: if below_current_tick { pool.fee_growth_global_y.v } else { 0 },
            seconds_outside: if below_current_tick { current_timestamp - pool.start_timestamp } else { 0 },
            seconds_per_liquidity_outside: if below_current_tick { pool.seconds_per_liquidity_global.v } else { 0 },
        }
    }

    /// Moves the liquidity change by `liquidity_delta`: added (`add`) or
    /// taken; the signed change moves by exactly that. The sum must fit.
    pub fn update_liquidity_change(&mut self, liquidity_delta: Liquidity, add: bool)
        requires
            old(self).sign == add ==> old(self).liquidity_change.value() + liquidity_delta.raw() < pow256(),
        ensures
            signed_change(*final(self)) == signed_change(*old(self))
                + (if add { liquidity_delta.raw() as int } else { -(liquidity_delta.raw() as int) }),
            *final(self) == (Tick { sign: final(self).sign, liquidity_change: final(self).liquidity_change, ..*old(self) }),
            old(self).sign != add && old(self).liquidity_change.value() <= liquidity_delta.raw()
                ==> final(self).sign == add,
            old(self).sign != add && old(self).liquidity_change.value() > liquidity_delta.raw()
                ==> final(self).sign == old(self).sign,
            old(self).sign == add ==> final(self).sign == old(self).sign,
    {
        if self.sign != add {
            if liquidity_delta.v.lt(&self.liquidity_change) {
                self.liquidity_change = self.liquidity_change.sub(&liquidity_delta.v);
            } else {
                self.liquidity_change = liquidity_delta.v.sub(&self.liquidity_change);
                self.sign = !self.sign;
            }
        } else {
            self.liquidity_change = self.liquidity_change.add(&liquidity_delta.v);
        }
    }

    /// The gross liquidity after adding (`sign`) or removing
    /// `liquidity_delta`; an error where removing takes more than there is,
    /// where the sum overflows, or where adding reaches
    /// `max_liquidity_per_tick`.
    pub fn calculate_new_liquidity_gross_safely(&self, sign: bool, liquidity_delta: Liquidity,
        max_liquidity_per_tick: Liquidity) -> (r: Result<Liquidity, CalcError>)
        ensures
            !sign ==> (if self.liquidity_gross.value() < liquidity_delta.raw() {
                r == Err::<Liquidity, CalcError>(CalcError::InvalidTickLiquidity)
            } else {
                r matches Ok(l) && l.raw() == self.liquidity_gross.value() - liquidity_delta.raw()
            }),
            sign ==> (if self.liquidity_gross.value() + liquidity_delta.raw() >= pow256() {
                r == Err::<Liquidity, CalcError>(CalcError::Overflow)
            } else if self.liquidity_gross.value() + liquidity_delta.raw() >= max_liquidity_per_tick.raw() {
                r == Err::<Liquidity, CalcError>(CalcError::InvalidTickLiquidity)
            } else {
                r matches Ok(l) && l.raw() == self.liquidity_gross.value() + liquidity_delta.raw()
            }),
    {
        let gross = Liquidity::new(self.liquidity_gross);
        if !sign && gross.lt(&liquidity_delta) {
            return Err(CalcError::InvalidTickLiquidity);
        }
        let new_liquidity = if sign {
            match gross.checked_add(&liquidity_delta) {
                Some(l) => l,
                None => return Err(CalcError::Overflow),
            }
        } else {
            match gross.checked_sub(&liquidity_delta) {
                Some(l) => l,
                None => return Err(CalcError::Underflow),
            }
        };
        if sign && !new_liquidity.lt(&max_liquidity_per_tick) {
            return Err(CalcError::InvalidTickLiquidity);
        }
        Ok(new_liquidity)
    }

    /// Adds (`is_deposit`) or removes `liquidity_delta` of a position for
    /// which this is the upper (`is_upper`) or lower tick: the gross
    /// liquidity moves by it, and the liquidity change by it with the sign
    /// `is_deposit != is_upper`. On an error nothing changes. Where the gross
    /// update is allowed, the liquidity change it adds must fit.
    pub fn update(&mut self, liquidity_delta: Liquidity, max_liquidity_per_tick: Liquidity, is_upper: bool,
        is_deposit: bool) -> (r: Result<(), CalcError>)
        requires
            gross_update_ok(old(self).liquidity_gross.value(), is_deposit, liquidity_delta.raw(), max_liquidity_per_tick.raw())
                && old(self).sign == (is_deposit != is_upper)
                ==> old(self).liquidity_change.value() + liquidity_delta.raw() < pow256(),
        ensures
            update_outcome(*old(self), *final(self), liquidity_delta, max_liquidity_per_tick, is_upper, is_deposit, r),
    {
        let gross = match self.calculate_new_liquidity_gross_safely(is_deposit, liquidity_delta, max_liquidity_per_tick) {
            Ok(g) => g,
            Err(e) => return Err(e),
        };
        self.liquidity_gross = gross.v;
        self.update_liquidity_change(liquidity_delta, is_deposit != is_upper);
        Ok(())
    }

    /// Crosses the tick: everything counted outside it flips to the other
    /// side (fee growth and seconds per liquidity against the pool's global
    /// values, wrapping; seconds outside against the seconds since the
    /// pool's start, wrapping), the pool's seconds per liquidity is brought
    /// up to `current_timestamp` (`calculate_global` being the price math's
    /// `calculate_seconds_per_liquidity_global`), and the pool's liquidity
    /// moves by the tick's change. An error leaves the updates made
    /// before it in place.
    pub fn cross<F: Fn(Liquidity, u64, u64) -> Result<SecondsPerLiquidity, CalcError>>(
        &mut self,
        pool: &mut Pool,
        current_timestamp: u64,
        calculate_global: F,
    ) -> (r: Result<(), CalcError>)
        requires
            forall|a: Liquidity, b: u64, c: u64| calculate_global.requires((a, b, c)),
        ensures
            cross_outcome(*old(self), *old(pool), *final(self), *final(pool), current_timestamp, calculate_global, r),
    {
        self.fee_growth_outside_x = FeeGrowth::new(pool.fee_growth_global_x.v)
            .unchecked_sub(&FeeGrowth::new(self.fee_growth_outside_x)).v;
        self.fee_growth_outside_y = FeeGrowth::new(pool.fee_growth_global_y.v)
            .unchecked_sub(&FeeGrowth::new(self.fee_growth_outside_y)).v;

        let seconds_passed: u64 = match current_timestamp.checked_sub(pool.start_timestamp) {
            Some(s) => s,
            None => return Err(CalcError::Underflow),
        };
        self.seconds_outside = seconds_passed.wrapping_sub(self.seconds_outside);

        if !pool.liquidity.is_zero() {
            match pool.update_seconds_per_liquidity_global(current_timestamp, calculate_global) {
                Ok(()) => {}
                Err(e) => return Err(e),
            }
        } else {
            pool.last_timestamp = current_timestamp;
        }
        self.seconds_per_liquidity_outside = pool.seconds_per_liquidity_global
            .unchecked_sub(&SecondsPerLiquidity::new(self.seconds_per_liquidity_outside)).v;

        // going up adds the net change, going down takes it
        if (pool.current_tick_index >= self.index) != self.sign {
            match pool.liquidity.checked_add(&Liquidity::new(self.liquidity_change)) {
                Some(l) => pool.liquidity = l,
                None => return Err(CalcError::Overflow),
            }
        } else {
            match pool.liquidity.checked_sub(&Liquidity::new(self.liquidity_change)) {
                Some(l) => pool.liquidity = l,
                None => return Err(CalcError::Underflow),
            }
        }
        Ok(())
    }
}

/// Crossing a tick leaves the pool's global fee growth as it was.
pub proof fn lemma_cross_keeps_fee_growth_global<F: Fn(Liquidity, u64, u64) -> Result<SecondsPerLiquidity, CalcError>>(
    tick: Tick, pool: Pool, tick_after: Tick, pool_after: Pool, current_timestamp: u64, calculate_global: F,
    r: Result<(), CalcError>)
    requires
        cross_outcome(tick, pool, tick_after, pool_after, current_timestamp, calculate_global, r),
    ensures
        pool_after.fee_growth_global_x == pool.fee_growth_global_x,
        pool_after.fee_growth_global_y == pool.fee_growth_global_y,
        pool_after.start_timestamp == pool.start_timestamp,
{
    if current_timestamp >= pool.start_timestamp && pool.liquidity.raw() != 0 {
        let res = choose|res: Result<SecondsPerLiquidity, CalcError>|
            #[trigger] calculate_global.ensures((pool.liquidity, current_timestamp, pool.last_timestamp), res)
            && match res {
                Err(e) => r == Err::<(), CalcError>(e) && pool_after == pool
                    && tick_after.seconds_per_liquidity_outside == tick.seconds_per_liquidity_outside,
                Ok(delta) => cross_finish(
                    Pool {
                        seconds_per_liquidity_global: SecondsPerLiquidity {
                            v: ((pool.seconds_per_liquidity_global.v + delta.v) % (pow128() as int)) as u128 },
                        last_timestamp: current_timestamp,
                        ..pool
                    },
                    tick, pool_after, tick_after.seconds_per_liquidity_outside, r),
            };
    }
}

/// Crossing a tick and crossing it back, with no fee earned in between,
/// gives the tick back the fee growth it counted outside; where both
/// crossings happen at one time, also the seconds it counted outside.
pub proof fn law_cross_twice_restores_fee_growth_outside<F: Fn(Liquidity, u64, u64) -> Result<SecondsPerLiquidity, CalcError>>(
    tick: Tick, pool: Pool, tick_crossed: Tick, pool_crossed: Pool, tick_back: Tick, pool_back: Pool,
    first_timestamp: u64, second_timestamp: u64, calculate_global: F,
    first: Result<(), CalcError>, second: Result<(), CalcError>)
    requires
        cross_outcome(tick, pool, tick_crossed, pool_crossed, first_timestamp, calculate_global, first),
        cross_outcome(tick_crossed, pool_crossed, tick_back, pool_back, second_timestamp, calculate_global, second),
    ensures
        tick_back.fee_growth_outside_x == tick.fee_growth_outside_x,
        tick_back.fee_growth_outside_y == tick.fee_growth_outside_y,
        first_timestamp == second_timestamp ==> tick_back.seconds_outside == tick.seconds_outside,
{
    lemma_cross_keeps_fee_growth_global(tick, pool, tick_crossed, pool_crossed, first_timestamp, calculate_global, first);
    if first_timestamp == second_timestamp && first_timestamp >= pool.start_timestamp {
        let d: int = first_timestamp - pool.start_timestamp;
        let s0: int = tick.seconds_outside as int;
        let s1: int = tick_crossed.seconds_outside as int;
        let s2: int = tick_back.seconds_outside as int;
        let m: int = 0x1_0000_0000_0000_0000int;
        assert(s1 == (d - s0) % m);
        assert(s2 == (d - s1) % m);
        assert(s2 == s0) by (nonlinear_arith)
            requires
                s1 == (d - s0) % m,
                s2 == (d - s1) % m,
                m == 0x1_0000_0000_0000_0000int,
                0 <= d < m, 0 <= s0 < m;
    }
    let gx = pool.fee_growth_global_x.v;
    let gy = pool.fee_growth_global_y.v;
    let ox = tick.fee_growth_outside_x;
    let oy = tick.fee_growth_outside_y;
    assert(wrapping_sub_128(gx, wrapping_sub_128(gx, ox)) == ox) by (nonlinear_arith)
        requires
            wrapping_sub_128(gx, ox) == ((gx - ox) % (pow128() as int)) as u128,
            wrapping_sub_128(gx, wrapping_sub_128(gx, ox)) == ((gx - wrapping_sub_128(gx, ox)) % (pow128() as int)) as u128,
            pow128() == 0x1_0000_0000_0000_0000_0000_0000_0000_0000nat,
            0 <= gx < pow128(), 0 <= ox < pow128();
    assert(wrapping_sub_128(gy, wrapping_sub_128(gy, oy)) == oy) by (nonlinear_arith)
        requires
            wrapping_sub_128(gy, oy) == ((gy - oy) % (pow128() as int)) as u128,
            wrapping_sub_128(gy, wrapping_sub_128(gy, oy)) == ((gy - wrapping_sub_128(gy, oy)) % (pow128() as int)) as u128,
            pow128() == 0x1_0000_0000_0000_0000_0000_0000_0000_0000nat,
            0 <= gy < pow128(), 0 <= oy < pow128();
}

/// Withdrawing what a deposit added undoes it: the gross liquidity and the
/// signed liquidity change are as before, and nothing else moved.
pub proof fn law_tick_withdraw_undoes_deposit(tick: Tick, deposited: Tick, withdrawn: Tick, delta: Liquidity,
    max_liquidity_per_tick: Liquidity, is_upper: bool)
    requires
        update_outcome(tick, deposited, delta, max_liquidity_per_tick, is_upper, true, Ok(())),
        update_outcome(deposited, withdrawn, delta, max_liquidity_per_tick, is_upper, false, Ok(())),
    ensures
        withdrawn.liquidity_gross.value() == tick.liquidity_gross.value(),
        signed_change(withdrawn) == signed_change(tick),
        withdrawn == (Tick { sign: withdrawn.sign, liquidity_change: withdrawn.liquidity_change,
            liquidity_gross: withdrawn.liquidity_gross, ..tick }),
{
}

/// Crossing a tick moves the pool's liquidity by the tick's signed net
/// change in the direction of the crossing: a pool standing below the tick
/// goes up through it and takes the change on; a pool at or above it goes
/// down and gives the change back. Nothing else of the pool's liquidity moves.
pub proof fn law_cross_moves_liquidity_by_signed_change<F: Fn(Liquidity, u64, u64) -> Result<SecondsPerLiquidity, CalcError>>(
    tick: Tick, pool: Pool, tick_after: Tick, pool_after: Pool, current_timestamp: u64, calculate_global: F,
    r: Result<(), CalcError>)
    requires
        cross_outcome(tick, pool, tick_after, pool_after, current_timestamp, calculate_global, r),
        r is Ok,
    ensures
        pool.current_tick_index < tick.index
            ==> pool_after.liquidity.raw() == pool.liquidity.raw() + signed_change(tick),
        pool.current_tick_index >= tick.index
            ==> pool_after.liquidity.raw() == pool.liquidity.raw() - signed_change(tick),
        pool_after.current_tick_index == pool.current_tick_index,
{
    if pool.liquidity.raw() != 0 && current_timestamp >= pool.start_timestamp {
        let res = choose|res: Result<SecondsPerLiquidity, CalcError>|
            #[trigger] calculate_global.ensures((pool.liquidity, current_timestamp, pool.last_timestamp), res)
            && match res {
                Err(e) => r == Err::<(), CalcError>(e) && pool_after == pool
                    && tick_after.seconds_per_liquidity_outside == tick.seconds_per_liquidity_outside,
                Ok(delta) => cross_finish(
                    Pool {
                        seconds_per_liquidity_global: SecondsPerLiquidity {
                            v: ((pool.seconds_per_liquidity_global.v + delta.v) % (pow128() as int)) as u128 },
                        last_timestamp: current_timestamp,
                        ..pool
                    },
                    tick, pool_after, tick_after.seconds_per_liquidity_outside, r),
            };
    }
}

} // verus!
