//! The state of a pool and its updates.
use vstd::prelude::*;
use crate::address::{Address, AddressKind};
use crate::decimal::{FeeGrowth, Liquidity, Percentage, SecondsPerLiquidity, SqrtPrice, TokenAmount,
    pow10, lemma_pow10_values};
use crate::decimal_ops::BigOps;
use crate::errors::CalcError;
use crate::storage::fee_tier::FeeTier;
use crate::storage::pool_key::PoolKey;
use crate::storage::tick::{Tick, cross_outcome};
use crate::uint::{U256, pow128, pow256};

verus! {

#[derive(Clone, Copy, Debug, PartialEq, Eq, Structural)]
pub struct Pool {
    pub liquidity: Liquidity,
    pub sqrt_price: SqrtPrice,
    /// The nearest tick below the current price.
    pub current_tick_index: i32,
    pub fee_growth_global_x: FeeGrowth,
    pub fee_growth_global_y: FeeGrowth,
    pub fee_protocol_token_x: TokenAmount,
    pub fee_protocol_token_y: TokenAmount,
    pub seconds_per_liquidity_global: SecondsPerLiquidity,
    pub start_timestamp: u64,
    pub last_timestamp: u64,
    pub fee_receiver: Address,
    pub oracle_initialized: bool,
}

/// The protocol's share of a fee `amount`: `amount * protocol_fee`, rounded up.
pub open spec fn spec_protocol_fee(amount: nat, protocol_fee: nat) -> int {
    (amount * protocol_fee + pow10(12) - 1) / (pow10(12) as int)
}

/// The growth per unit of liquidity that a fee adds (28 decimal places).
pub open spec fn spec_fee_growth(liquidity: nat, fee: nat) -> int {
    (fee * pow10(33) / liquidity) as int
}

/// What `add_fee` does: the protocol takes its share `pf` of `amount`, the
/// rest grows the global fee growth of the token (wrapping); nothing changes
/// where both parts are zero or the pool has no liquidity, and an overflow of
/// the growth is refused.
pub open spec fn add_fee_outcome(before: Pool, after: Pool, amount: TokenAmount, in_x: bool, protocol_fee: Percentage,
    r: Result<(), CalcError>) -> bool
{
    let pf = spec_protocol_fee(amount.raw(), protocol_fee.v as nat);
    let pool_fee = amount.raw() - pf;
    let growth = spec_fee_growth(before.liquidity.raw(), pool_fee as nat);
    if (pool_fee == 0 && pf == 0) || before.liquidity.raw() == 0 {
        r is Ok && after == before
    } else if growth >= pow128() {
        r == Err::<(), CalcError>(CalcError::Overflow) && after == before
    } else if in_x {
        &&& r is Ok
        &&& after.fee_growth_global_x.v == (before.fee_growth_global_x.v + growth) % (pow128() as int)
        &&& after.fee_protocol_token_x.raw() == before.fee_protocol_token_x.raw() + pf
        &&& after == (Pool { fee_growth_global_x: after.fee_growth_global_x,
                fee_protocol_token_x: after.fee_protocol_token_x, ..before })
    } else {
        &&& r is Ok
        &&& after.fee_growth_global_y.v == (before.fee_growth_global_y.v + growth) % (pow128() as int)
        &&& after.fee_protocol_token_y.raw() == before.fee_protocol_token_y.raw() + pf
        &&& after == (Pool { fee_growth_global_y: after.fee_growth_global_y,
                fee_protocol_token_y: after.fee_protocol_token_y, ..before })
    }
}

/// What `add_fee` asks of its inputs: the protocol's share is at most the
/// amount and its balance stays in range.
pub open spec fn add_fee_safe(pool: Pool, amount: TokenAmount, in_x: bool, protocol_fee: Percentage) -> bool {
    &&& spec_protocol_fee(amount.raw(), protocol_fee.v as nat) <= amount.raw()
    &&& pool.liquidity.raw() != 0 && in_x ==>
        pool.fee_protocol_token_x.raw() + spec_protocol_fee(amount.raw(), protocol_fee.v as nat) < pow256()
    &&& pool.liquidity.raw() != 0 && !in_x ==>
        pool.fee_protocol_token_y.raw() + spec_protocol_fee(amount.raw(), protocol_fee.v as nat) < pow256()
}

/// The result of one step of a swap within a price range.
#[derive(Clone, Copy, Debug, PartialEq, Eq, Structural)]
pub struct SwapResult {
    pub next_sqrt_price: SqrtPrice,
    pub amount_in: TokenAmount,
    pub amount_out: TokenAmount,
    pub fee_amount: TokenAmount,
}

/// Whether an `add_fee` of `amount` keeps the fee growth in range (or
/// changes nothing).
pub open spec fn add_fee_fits(pool: Pool, amount: TokenAmount, protocol_fee: Percentage) -> bool {
    let pf = spec_protocol_fee(amount.raw(), protocol_fee.v as nat);
    let pool_fee = amount.raw() - pf;
    (pool_fee == 0 && pf == 0) || pool.liquidity.raw() == 0
        || spec_fee_growth(pool.liquidity.raw(), pool_fee as nat) < pow128()
}

/// What `cross_tick` asks of its inputs: the
/// price math answers without an error, and where the remaining amount is
/// taken as a fee, that fee, its protocol share and the total stay in range;
/// where the tick moves below the limit, the new index fits.
pub open spec fn cross_tick_safe<
    E: Fn(TokenAmount, SqrtPrice, Liquidity, Percentage, bool, bool) -> Result<bool, CalcError>,
    T: Fn(SqrtPrice, u32) -> Result<i32, CalcError>,
>(
    pool: Pool, result: SwapResult, swap_limit: SqrtPrice, limiting_tick: Option<(i32, Option<Tick>)>,
    remaining_amount: TokenAmount, by_amount_in: bool, x_to_y: bool, total_amount_in: TokenAmount,
    protocol_fee: Percentage, fee_tier: FeeTier, is_enough_amount_to_change_price: E, get_tick_at_sqrt_price: T,
) -> bool {
    match limiting_tick {
        Some((index, tick)) if result.next_sqrt_price == swap_limit =>
            forall|res: Result<bool, CalcError>| #[trigger] is_enough_amount_to_change_price.ensures((remaining_amount,
                result.next_sqrt_price, pool.liquidity, fee_tier.fee, by_amount_in, x_to_y), res)
                ==> match res {
                    Err(_) => false,
                    Ok(enough) => {
                        &&& x_to_y && enough ==> i32::MIN <= index - (fee_tier.tick_spacing as i32) <= i32::MAX
                        &&& tick is Some && x_to_y && !enough && remaining_amount.raw() != 0 && by_amount_in ==> {
                            &&& add_fee_safe(pool, remaining_amount, true, protocol_fee)
                            &&& add_fee_fits(pool, remaining_amount, protocol_fee)
                            &&& total_amount_in.raw() + remaining_amount.raw() < pow256()
                        }
                    },
                },
        _ => forall|res: Result<i32, CalcError>|
            #[trigger] get_tick_at_sqrt_price.ensures((result.next_sqrt_price, fee_tier.tick_spacing), res) ==> res is Ok,
    }
}

/// What `cross_tick` does once the price math said whether the remaining
/// amount is enough to cross (`enough`): the limiting tick, if there is one,
/// is crossed when going up or when the amount is enough; otherwise a
/// remaining amount is taken as a fee (when it is an amount in) and set to
/// zero. The current tick becomes the limit, or the one below it when going
/// down across it.
pub open spec fn crossing_outcome<F: Fn(Liquidity, u64, u64) -> Result<SecondsPerLiquidity, CalcError>>(
    pool: Pool, pool_after: Pool, index: i32, tick: Option<Tick>, limiting_tick_after: Option<(i32, Option<Tick>)>,
    remaining_amount: TokenAmount, remaining_amount_after: TokenAmount, total_amount_in: TokenAmount,
    total_amount_in_after: TokenAmount, by_amount_in: bool, x_to_y: bool, current_timestamp: u64,
    protocol_fee: Percentage, fee_tier: FeeTier, calculate_seconds_per_liquidity_global: F, enough: bool,
) -> bool {
    let new_index = if x_to_y && enough { (index - (fee_tier.tick_spacing as i32)) as i32 } else { index };
    let pool_before_index = Pool { current_tick_index: pool.current_tick_index, ..pool_after };
    &&& pool_after.current_tick_index == new_index
    &&& match tick {
        None => {
            &&& pool_before_index == pool
            &&& limiting_tick_after == Some((index, tick))
            &&& remaining_amount_after == remaining_amount
            &&& total_amount_in_after == total_amount_in
        },
        Some(t) => if !x_to_y || enough {
            &&& limiting_tick_after matches Some((i, Some(t_after))) && i == index
                && exists|r: Result<(), CalcError>| cross_outcome(t, pool, t_after, pool_before_index,
                    current_timestamp, calculate_seconds_per_liquidity_global, r)
            &&& remaining_amount_after == remaining_amount
            &&& total_amount_in_after == total_amount_in
        } else if remaining_amount.raw() != 0 {
            &&& limiting_tick_after == Some((index, tick))
            &&& remaining_amount_after.raw() == 0
            &&& if by_amount_in {
                &&& add_fee_outcome(pool, pool_before_index, remaining_amount, true, protocol_fee, Ok(()))
                &&& total_amount_in_after.raw() == total_amount_in.raw() + remaining_amount.raw()
            } else {
                pool_before_index == pool && total_amount_in_after == total_amount_in
            }
        } else {
            &&& pool_before_index == pool
            &&& limiting_tick_after == Some((index, tick))
            &&& remaining_amount_after == remaining_amount
            &&& total_amount_in_after == total_amount_in
        },
    }
}

/// What `update_liquidity` does with the result `res` of the amount math:
/// pass on its error, or return its amounts, changing the pool's liquidity
/// by the delta where the range holds the current price.
pub open spec fn update_liquidity_outcome(before: Pool, after: Pool, delta: Liquidity, sign: bool,
    res: Result<(TokenAmount, TokenAmount, bool), CalcError>, r: Result<(TokenAmount, TokenAmount), CalcError>) -> bool
{
    match res {
        Err(e) => r == Err::<(TokenAmount, TokenAmount), CalcError>(e) && after == before,
        Ok((x, y, update)) => if !update {
            r == Ok::<(TokenAmount, TokenAmount), CalcError>((x, y)) && after == before
        } else if sign {
            if before.liquidity.raw() + delta.raw() < pow256() {
                &&& r == Ok::<(TokenAmount, TokenAmount), CalcError>((x, y))
                &&& after.liquidity.raw() == before.liquidity.raw() + delta.raw()
                &&& after == (Pool { liquidity: after.liquidity, ..before })
            } else {
                r == Err::<(TokenAmount, TokenAmount), CalcError>(CalcError::Overflow) && after == before
            }
        } else {
            if before.liquidity.raw() >= delta.raw() {
                &&& r == Ok::<(TokenAmount, TokenAmount), CalcError>((x, y))
                &&& after.liquidity.raw() == before.liquidity.raw() - delta.raw()
                &&& after == (Pool { liquidity: after.liquidity, ..before })
            } else {
                r == Err::<(TokenAmount, TokenAmount), CalcError>(CalcError::Underflow) && after == before
            }
        },
    }
}

impl Pool {
    /// An empty pool: every amount zero, the zero account as fee receiver.
    pub fn default() -> (r: Pool)
        ensures
            r.liquidity.raw() == 0,
            r.sqrt_price.v == 0,
            r.current_tick_index == 0,
            r.fee_growth_global_x.v == 0,
            r.fee_growth_global_y.v == 0,
            r.fee_protocol_token_x.raw() == 0,
            r.fee_protocol_token_y.raw() == 0,
            r.seconds_per_liquidity_global.v == 0,
            r.start_timestamp == 0,
            r.last_timestamp == 0,
            r.fee_receiver == (Address { kind: AddressKind::Account, h0: 0, h1: 0, h2: 0, h3: 0 }),
            !r.oracle_initialized,
    {
        Pool {
            liquidity: Liquidity::new(U256::zero()),
            sqrt_price: SqrtPrice::new(0),
            current_tick_index: 0,
            fee_growth_global_x: FeeGrowth::new(0),
            fee_growth_global_y: FeeGrowth::new(0),
            fee_protocol_token_x: TokenAmount::new(U256::zero()),
            fee_protocol_token_y: TokenAmount::new(U256::zero()),
            seconds_per_liquidity_global: SecondsPerLiquidity::new(0),
            start_timestamp: 0,
            last_timestamp: 0,
            fee_receiver: Address { kind: AddressKind::Account, h0: 0, h1: 0, h2: 0, h3: 0 },
            oracle_initialized: false,
        }
    }

    /// A new pool at `init_tick`, whose price `init_sqrt_price` is (the
    /// square root of the price of `init_tick`, as the price math computes it).
    pub fn create(init_tick: i32, init_sqrt_price: SqrtPrice, current_timestamp: u64, fee_receiver: Address) -> (r: Pool)
        ensures
            r == (Pool {
                sqrt_price: init_sqrt_price,
                current_tick_index: init_tick,
                start_timestamp: current_timestamp,
                last_timestamp: current_timestamp,
                fee_receiver,
                ..r
            }),
            r.liquidity.raw() == 0,
            r.fee_growth_global_x.v == 0,
            r.fee_growth_global_y.v == 0,
            r.fee_protocol_token_x.raw() == 0,
            r.fee_protocol_token_y.raw() == 0,
            r.seconds_per_liquidity_global.v == 0,
            !r.oracle_initialized,
    {
        let d = Pool::default();
        Pool {
            sqrt_price: init_sqrt_price,
            current_tick_index: init_tick,
            start_timestamp: current_timestamp,
            last_timestamp: current_timestamp,
            fee_receiver,
            ..d
        }
    }

    /// Splits a fee `amount` paid in token x (`in_x`) or y between the
    /// protocol (its share `protocol_fee`, rounded up) and the liquidity
    /// providers, whose part grows the global fee growth. Nothing changes
    /// where both parts are zero or the pool has no liquidity. The protocol's
    /// share must not exceed the amount and its balance must stay in range.
    pub fn add_fee(&mut self, amount: TokenAmount, in_x: bool, protocol_fee: Percentage) -> (r: Result<(), CalcError>)
        requires
            add_fee_safe(*old(self), amount, in_x, protocol_fee),
        ensures
            add_fee_outcome(*old(self), *final(self), amount, in_x, protocol_fee, r),
    {
        proof { lemma_pow10_values(); }
        let protocol_fee = amount.big_mul_up(protocol_fee);
        let pool_fee = amount.sub(&protocol_fee);
        if (pool_fee.is_zero() && protocol_fee.is_zero()) || self.liquidity.is_zero() {
            return Ok(());
        }
        let fee_growth = match FeeGrowth::from_fee(&self.liquidity, &pool_fee) {
            Some(g) => g,
            None => return Err(CalcError::Overflow),
        };
        if in_x {
            self.fee_growth_global_x = self.fee_growth_global_x.unchecked_add(&fee_growth);
            self.fee_protocol_token_x = self.fee_protocol_token_x.add(&protocol_fee);
        } else {
            self.fee_growth_global_y = self.fee_growth_global_y.unchecked_add(&fee_growth);
            self.fee_protocol_token_y = self.fee_protocol_token_y.add(&protocol_fee);
        }
        Ok(())
    }

    /// Hands out the protocol's fee balances and sets them to zero.
    pub fn withdraw_protocol_fee(&mut self, _pool_key: PoolKey) -> (r: (TokenAmount, TokenAmount))
        ensures
            r.0 == old(self).fee_protocol_token_x,
            r.1 == old(self).fee_protocol_token_y,
            final(self).fee_protocol_token_x.raw() == 0,
            final(self).fee_protocol_token_y.raw() == 0,
            *final(self) == (Pool { fee_protocol_token_x: final(self).fee_protocol_token_x,
                fee_protocol_token_y: final(self).fee_protocol_token_y, ..*old(self) }),
    {
        let fee_protocol_token_x = self.fee_protocol_token_x;
        let fee_protocol_token_y = self.fee_protocol_token_y;
        self.fee_protocol_token_x = TokenAmount::new(U256::zero());
        self.fee_protocol_token_y = TokenAmount::new(U256::zero());
        (fee_protocol_token_x, fee_protocol_token_y)
    }

    /// Adds (`liquidity_sign`) or removes `liquidity_delta` of liquidity on
    /// the range `[lower_tick, upper_tick)` and returns the token amounts
    /// that takes. `calculate_amount_delta` is the price math's
    /// `calculate_amount_delta`; it is handed the current tick and price,
    /// the delta, the sign and the range, and says the amounts and whether
    /// the range holds the current price (only then the pool's own
    /// liquidity changes).
    pub fn update_liquidity<F: Fn(i32, SqrtPrice, Liquidity, bool, i32, i32) -> Result<(TokenAmount, TokenAmount, bool), CalcError>>(
        &mut self,
        liquidity_delta: Liquidity,
        liquidity_sign: bool,
        upper_tick: i32,
        lower_tick: i32,
        calculate_amount_delta: F,
    ) -> (r: Result<(TokenAmount, TokenAmount), CalcError>)
        requires
            forall|a: i32, b: SqrtPrice, c: Liquidity, d: bool, e: i32, f: i32| calculate_amount_delta.requires((a, b, c, d, e, f)),
        ensures
            exists|res: Result<(TokenAmount, TokenAmount, bool), CalcError>|
                #[trigger] calculate_amount_delta.ensures((old(self).current_tick_index, old(self).sqrt_price, liquidity_delta,
                    liquidity_sign, upper_tick, lower_tick), res)
                && update_liquidity_outcome(*old(self), *final(self), liquidity_delta, liquidity_sign, res, r),
    {
        let res = calculate_amount_delta(self.current_tick_index, self.sqrt_price, liquidity_delta, liquidity_sign, upper_tick, lower_tick);
        let (x, y, update_liquidity) = match res {
            Ok(v) => v,
            Err(e) => return Err(e),
        };
        if !update_liquidity {
            return Ok((x, y));
        }
        if liquidity_sign {
            match self.liquidity.checked_add(&liquidity_delta) {
                Some(l) => {
                    self.liquidity = l;
                    Ok((x, y))
                }
                None => Err(CalcError::Overflow),
            }
        } else {
            match self.liquidity.checked_sub(&liquidity_delta) {
                Some(l) => {
                    self.liquidity = l;
                    Ok((x, y))
                }
                None => Err(CalcError::Underflow),
            }
        }
    }

    /// Accrues the seconds per liquidity since the last update and moves the
    /// last timestamp to `current_timestamp`. `calculate` is the price
    /// math's `calculate_seconds_per_liquidity_global`, handed the pool's
    /// liquidity, `current_timestamp` and the last timestamp.
    pub fn update_seconds_per_liquidity_global<F: Fn(Liquidity, u64, u64) -> Result<SecondsPerLiquidity, CalcError>>(
        &mut self,
        current_timestamp: u64,
        calculate: F,
    ) -> (r: Result<(), CalcError>)
        requires
            forall|a: Liquidity, b: u64, c: u64| calculate.requires((a, b, c)),
        ensures
            exists|res: Result<SecondsPerLiquidity, CalcError>|
                #[trigger] calculate.ensures((old(self).liquidity, current_timestamp, old(self).last_timestamp), res)
                && match res {
                    Err(e) => r == Err::<(), CalcError>(e) && *final(self) == *old(self),
                    Ok(delta) => {
                        &&& r is Ok
                        &&& final(self).seconds_per_liquidity_global.v
                            == (old(self).seconds_per_liquidity_global.v + delta.v) % (pow128() as int)
                        &&& *final(self) == (Pool { seconds_per_liquidity_global: final(self).seconds_per_liquidity_global,
                                last_timestamp: current_timestamp, ..*old(self) })
                    },
                },
    {
        let res = calculate(self.liquidity, current_timestamp, self.last_timestamp);
        let delta = match res {
            Ok(d) => d,
            Err(e) => return Err(e),
        };
        self.seconds_per_liquidity_global = self.seconds_per_liquidity_global.unchecked_add(&delta);
        self.last_timestamp = current_timestamp;
        Ok(())
    }

    /// Brings the global seconds per liquidity up to `current_timestamp`
    /// (or, with no liquidity, only the timestamp) and returns the seconds
    /// per liquidity inside `[tick_lower, tick_upper)`, as the price math's
    /// `calculate_seconds_per_liquidity_inside` (here `calculate_inside`)
    /// computes it from the two ticks' outside values and the pool's state.
    pub fn update_seconds_per_liquidity_inside<
        F: Fn(Liquidity, u64, u64) -> Result<SecondsPerLiquidity, CalcError>,
        G: Fn(i32, i32, i32, SecondsPerLiquidity, SecondsPerLiquidity, SecondsPerLiquidity) -> Result<SecondsPerLiquidity, CalcError>,
    >(
        &mut self,
        tick_lower: i32,
        tick_lower_seconds_per_liquidity_outside: SecondsPerLiquidity,
        tick_upper: i32,
        tick_upper_seconds_per_liquidity_outside: SecondsPerLiquidity,
        current_timestamp: u64,
        calculate_global: F,
        calculate_inside: G,
    ) -> (r: Result<SecondsPerLiquidity, CalcError>)
        requires
            forall|a: Liquidity, b: u64, c: u64| calculate_global.requires((a, b, c)),
            forall|a: i32, b: i32, c: i32, d: SecondsPerLiquidity, e: SecondsPerLiquidity, f: SecondsPerLiquidity|
                calculate_inside.requires((a, b, c, d, e, f)),
        ensures
            old(self).liquidity.raw() == 0 ==> final(self).last_timestamp == current_timestamp
                && *final(self) == (Pool { last_timestamp: current_timestamp, ..*old(self) }),
            old(self).liquidity.raw() != 0 ==> exists|res: Result<SecondsPerLiquidity, CalcError>|
                #[trigger] calculate_global.ensures((old(self).liquidity, current_timestamp, old(self).last_timestamp), res)
                && match res {
                    Err(e) => r == Err::<SecondsPerLiquidity, CalcError>(e) && *final(self) == *old(self),
                    Ok(delta) => {
                        &&& final(self).seconds_per_liquidity_global.v
                            == (old(self).seconds_per_liquidity_global.v + delta.v) % (pow128() as int)
                        &&& *final(self) == (Pool { seconds_per_liquidity_global: final(self).seconds_per_liquidity_global,
                                last_timestamp: current_timestamp, ..*old(self) })
                        &&& calculate_inside.ensures((tick_lower, tick_upper,
                                final(self).current_tick_index, tick_lower_seconds_per_liquidity_outside,
                                tick_upper_seconds_per_liquidity_outside, final(self).seconds_per_liquidity_global), r)
                    },
                },
            old(self).liquidity.raw() == 0 ==> calculate_inside.ensures((tick_lower, tick_upper,
                final(self).current_tick_index, tick_lower_seconds_per_liquidity_outside,
                tick_upper_seconds_per_liquidity_outside, final(self).seconds_per_liquidity_global), r),
    {
        if !self.liquidity.is_zero() {
            match self.update_seconds_per_liquidity_global(current_timestamp, calculate_global) {
                Ok(()) => {}
                Err(e) => return Err(e),
            }
        } else {
            self.last_timestamp = current_timestamp;
        }
        calculate_inside(tick_lower, tick_upper, self.current_tick_index, tick_lower_seconds_per_liquidity_outside,
            tick_upper_seconds_per_liquidity_outside, self.seconds_per_liquidity_global)
    }

    /// Moves the pool's current tick after a swap step that reached
    /// `result.next_sqrt_price`. Where that is the swap's limit and a
    /// limiting tick is given, the tick (if initialized) is crossed when the
    /// price goes up or the remaining amount is enough to move the price
    /// (`is_enough_amount_to_change_price`); else a remaining amount in is
    /// taken as a fee and the remaining amount drops to zero. Otherwise the
    /// current tick is the tick at the new price (`get_tick_at_sqrt_price`).
    /// The price math's functions are handed in; the limiting tick's update
    /// stays inside `limiting_tick`.
    pub fn cross_tick<
        E: Fn(TokenAmount, SqrtPrice, Liquidity, Percentage, bool, bool) -> Result<bool, CalcError>,
        T: Fn(SqrtPrice, u32) -> Result<i32, CalcError>,
        F: Fn(Liquidity, u64, u64) -> Result<SecondsPerLiquidity, CalcError>,
    >(
        &mut self,
        result: SwapResult,
        swap_limit: SqrtPrice,
        limiting_tick: &mut Option<(i32, Option<Tick>)>,
        remaining_amount: &mut TokenAmount,
        by_amount_in: bool,
        x_to_y: bool,
        current_timestamp: u64,
        total_amount_in: &mut TokenAmount,
        protocol_fee: Percentage,
        fee_tier: FeeTier,
        is_enough_amount_to_change_price: E,
        get_tick_at_sqrt_price: T,
        calculate_seconds_per_liquidity_global: F,
    )
        requires
            forall|a: TokenAmount, b: SqrtPrice, c: Liquidity, d: Percentage, e: bool, f: bool|
                is_enough_amount_to_change_price.requires((a, b, c, d, e, f)),
            forall|a: SqrtPrice, b: u32| get_tick_at_sqrt_price.requires((a, b)),
            forall|a: Liquidity, b: u64, c: u64| calculate_seconds_per_liquidity_global.requires((a, b, c)),
            cross_tick_safe(*old(self), result, swap_limit, *old(limiting_tick), *old(remaining_amount), by_amount_in,
                x_to_y, *old(total_amount_in), protocol_fee, fee_tier, is_enough_amount_to_change_price,
                get_tick_at_sqrt_price),
        ensures
            match *old(limiting_tick) {
                Some((index, tick)) if result.next_sqrt_price == swap_limit =>
                    exists|enough: bool| #[trigger] is_enough_amount_to_change_price.ensures((*old(remaining_amount),
                        result.next_sqrt_price, old(self).liquidity, fee_tier.fee, by_amount_in, x_to_y), Ok(enough))
                        && crossing_outcome(*old(self), *final(self), index, tick, *final(limiting_tick),
                            *old(remaining_amount), *final(remaining_amount), *old(total_amount_in),
                            *final(total_amount_in), by_amount_in, x_to_y, current_timestamp, protocol_fee, fee_tier,
                            calculate_seconds_per_liquidity_global, enough),
                _ => {
                    &&& exists|i: i32| #[trigger] get_tick_at_sqrt_price.ensures((result.next_sqrt_price,
                            fee_tier.tick_spacing), Ok(i)) && *final(self) == (Pool { current_tick_index: i, ..*old(self) })
                    &&& *final(limiting_tick) == *old(limiting_tick)
                    &&& *final(remaining_amount) == *old(remaining_amount)
                    &&& *final(total_amount_in) == *old(total_amount_in)
                },
            },
    {
        let lt = *limiting_tick;
        if result.next_sqrt_price.v == swap_limit.v && lt.is_some() {
            let (tick_index, tick) = lt.unwrap();
            let enough_res = is_enough_amount_to_change_price(*remaining_amount, result.next_sqrt_price, self.liquidity,
                fee_tier.fee, by_amount_in, x_to_y);
            let enough = match enough_res {
                Ok(b) => b,
                Err(_) => return,
            };
            let ghost pool0 = *self;
            let ghost mut cross_result: Result<(), CalcError> = Ok(());
            match tick {
                Some(t) => {
                    let mut t = t;
                    if !x_to_y || enough {
                        let crossed = t.cross(self, current_timestamp, calculate_seconds_per_liquidity_global);
                        proof { cross_result = crossed; }
                        *limiting_tick = Some((tick_index, Some(t)));
                    } else if !remaining_amount.is_zero() {
                        if by_amount_in {
                            let _ = self.add_fee(*remaining_amount, x_to_y, protocol_fee);
                            *total_amount_in = total_amount_in.add(remaining_amount);
                        }
                        *remaining_amount = TokenAmount::new(U256::zero());
                    }
                },
                None => {},
            }
            let ghost pool1 = *self;
            self.current_tick_index = if x_to_y && enough {
                tick_index - (fee_tier.tick_spacing as i32)
            } else {
                tick_index
            };
            assert(pool1 == Pool { current_tick_index: pool0.current_tick_index, ..*self });
            proof {
                if let (Some(t0), Some((_, Some(t1)))) = (tick, *limiting_tick) {
                    if !x_to_y || enough {
                        assert(cross_outcome(t0, *old(self), t1,
                            Pool { current_tick_index: old(self).current_tick_index, ..*self },
                            current_timestamp, calculate_seconds_per_liquidity_global, cross_result));
                    }
                }
            }
            assert(crossing_outcome(*old(self), *self, tick_index, tick, *limiting_tick,
                *old(remaining_amount), *remaining_amount, *old(total_amount_in),
                *total_amount_in, by_amount_in, x_to_y, current_timestamp, protocol_fee, fee_tier,
                calculate_seconds_per_liquidity_global, enough));
        } else {
            match get_tick_at_sqrt_price(result.next_sqrt_price, fee_tier.tick_spacing) {
                Ok(i) => self.current_tick_index = i,
                Err(_) => return,
            }
        }
    }
}

/// Removing liquidity that was just added, on a range that holds the
/// current price, gives the pool back its liquidity; nothing else moved.
pub proof fn law_pool_remove_liquidity_undoes_add(pool: Pool, added: Pool, removed: Pool, delta: Liquidity,
    first: (TokenAmount, TokenAmount), second: (TokenAmount, TokenAmount))
    requires
        update_liquidity_outcome(pool, added, delta, true, Ok((first.0, first.1, true)), Ok(first)),
        update_liquidity_outcome(added, removed, delta, false, Ok((second.0, second.1, true)), Ok(second)),
    ensures
        removed.liquidity.raw() == pool.liquidity.raw(),
        removed == (Pool { liquidity: removed.liquidity, ..pool }),
{
}

/// Where a swap step reaches the limit at tick `index`, the pool's current
/// tick becomes that tick, or, going down (`x_to_y`) with enough amount to
/// move the price, the usable tick below it, so that the current tick stays
/// below the price; this holds whether or not the limiting tick is
/// initialized.
pub proof fn law_cross_tick_sets_current_tick<F: Fn(Liquidity, u64, u64) -> Result<SecondsPerLiquidity, CalcError>>(
    pool: Pool, pool_after: Pool, index: i32, tick: Option<Tick>, limiting_tick_after: Option<(i32, Option<Tick>)>,
    remaining_amount: TokenAmount, remaining_amount_after: TokenAmount, total_amount_in: TokenAmount,
    total_amount_in_after: TokenAmount, by_amount_in: bool, x_to_y: bool, current_timestamp: u64,
    protocol_fee: Percentage, fee_tier: FeeTier, calculate_seconds_per_liquidity_global: F, enough: bool)
    requires
        crossing_outcome(pool, pool_after, index, tick, limiting_tick_after, remaining_amount, remaining_amount_after,
            total_amount_in, total_amount_in_after, by_amount_in, x_to_y, current_timestamp, protocol_fee, fee_tier,
            calculate_seconds_per_liquidity_global, enough),
        1 <= fee_tier.tick_spacing <= i32::MAX,
        i32::MIN <= index - fee_tier.tick_spacing,
    ensures
        x_to_y && enough ==> pool_after.current_tick_index == index - fee_tier.tick_spacing
            && pool_after.current_tick_index < index,
        !(x_to_y && enough) ==> pool_after.current_tick_index == index,
{
}

} // verus!
