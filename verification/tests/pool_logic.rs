use invariant_clamm::address::Address;
use invariant_clamm::decimal::{FeeGrowth, Liquidity, Percentage, SecondsPerLiquidity, SqrtPrice, TokenAmount};
use invariant_clamm::errors::CalcError;
use invariant_clamm::storage::fee_tier::FeeTier;
use invariant_clamm::storage::pool::{Pool, SwapResult};
use invariant_clamm::storage::pool_key::{new_pool_key, PoolKey};
use invariant_clamm::storage::position::{positions_equals, Position};
use invariant_clamm::storage::tick::Tick;
use invariant_clamm::uint::U256;

fn u(x: u128) -> U256 {
    U256::from_u128(x)
}

fn liq(x: u128) -> Liquidity {
    Liquidity::from_integer(u(x))
}

fn amount(x: u128) -> TokenAmount {
    TokenAmount::new(u(x))
}

fn seven_per_call(_l: Liquidity, _now: u64, _last: u64) -> Result<SecondsPerLiquidity, CalcError> {
    Ok(SecondsPerLiquidity::new(7))
}

#[test]
fn update_liquidity_moves_the_pool_only_in_range() {
    let pool = Pool { liquidity: liq(10), ..Pool::default() };
    let in_range = |_t: i32, _p: SqrtPrice, _l: Liquidity, _s: bool, _u: i32, _lo: i32|
        -> Result<(TokenAmount, TokenAmount, bool), CalcError> { Ok((amount(5), amount(7), true)) };
    let out_of_range = |_t: i32, _p: SqrtPrice, _l: Liquidity, _s: bool, _u: i32, _lo: i32|
        -> Result<(TokenAmount, TokenAmount, bool), CalcError> { Ok((amount(5), amount(0), false)) };
    let failing = |_t: i32, _p: SqrtPrice, _l: Liquidity, _s: bool, _u: i32, _lo: i32|
        -> Result<(TokenAmount, TokenAmount, bool), CalcError> { Err(CalcError::Overflow) };

    let mut p = pool;
    assert_eq!(p.update_liquidity(liq(3), true, 10, -10, in_range), Ok((amount(5), amount(7))));
    assert_eq!(p.liquidity, liq(13));
    assert_eq!(p.update_liquidity(liq(13), false, 10, -10, in_range), Ok((amount(5), amount(7))));
    assert_eq!(p.liquidity, liq(0));
    assert_eq!(p.update_liquidity(liq(1), false, 10, -10, in_range), Err(CalcError::Underflow));

    let mut p = pool;
    assert_eq!(p.update_liquidity(liq(3), true, 10, -10, out_of_range), Ok((amount(5), amount(0))));
    assert_eq!(p.liquidity, liq(10));
    assert_eq!(p.update_liquidity(liq(3), true, 10, -10, failing), Err(CalcError::Overflow));
    assert_eq!(p, pool);
}

#[test]
fn withdraw_protocol_fee_empties_the_balances() {
    let mut pool = Pool { fee_protocol_token_x: amount(3), fee_protocol_token_y: amount(4), ..Pool::default() };
    assert_eq!(pool.withdraw_protocol_fee(PoolKey::default()), (amount(3), amount(4)));
    assert_eq!(pool.fee_protocol_token_x, amount(0));
    assert_eq!(pool.fee_protocol_token_y, amount(0));
}

#[test]
fn seconds_per_liquidity_global_accumulates() {
    let mut pool = Pool { liquidity: liq(1), last_timestamp: 5, ..Pool::default() };
    pool.update_seconds_per_liquidity_global(9, seven_per_call).unwrap();
    assert_eq!(pool.seconds_per_liquidity_global, SecondsPerLiquidity::new(7));
    assert_eq!(pool.last_timestamp, 9);
}

#[test]
fn tick_cross_flips_the_outside_values() {
    let mut pool = Pool {
        liquidity: Liquidity::new(u(100)),
        current_tick_index: 5,
        fee_growth_global_x: FeeGrowth::new(15),
        fee_growth_global_y: FeeGrowth::new(20),
        ..Pool::default()
    };
    let mut tick = Tick {
        index: 0,
        sign: true,
        liquidity_change: u(10),
        fee_growth_outside_x: 5,
        fee_growth_outside_y: 25,
        ..Tick::default()
    };
    tick.cross(&mut pool, 10, seven_per_call).unwrap();
    assert_eq!(tick.fee_growth_outside_x, 10);
    // wraps around below zero
    assert_eq!(tick.fee_growth_outside_y, u128::MAX - 4);
    assert_eq!(tick.seconds_outside, 10);
    assert_eq!(tick.seconds_per_liquidity_outside, 7);
    assert_eq!(pool.seconds_per_liquidity_global, SecondsPerLiquidity::new(7));
    assert_eq!(pool.last_timestamp, 10);
    // the pool stands above the tick and the change is positive: crossing down takes it
    assert_eq!(pool.liquidity, Liquidity::new(u(90)));

    // crossing back restores the fee growth outside
    pool.current_tick_index = -1;
    tick.cross(&mut pool, 20, seven_per_call).unwrap();
    assert_eq!(tick.fee_growth_outside_x, 5);
    assert_eq!(tick.fee_growth_outside_y, 25);
    assert_eq!(pool.liquidity, Liquidity::new(u(100)));
}

#[test]
fn tick_cross_before_the_pool_started_fails() {
    let mut pool = Pool { start_timestamp: 50, ..Pool::default() };
    let mut tick = Tick::default();
    assert_eq!(tick.cross(&mut pool, 10, seven_per_call), Err(CalcError::Underflow));
}

#[test]
fn tick_create_counts_history_below_the_current_tick() {
    let pool = Pool {
        current_tick_index: 10,
        fee_growth_global_x: FeeGrowth::new(3),
        fee_growth_global_y: FeeGrowth::new(4),
        seconds_per_liquidity_global: SecondsPerLiquidity::new(6),
        start_timestamp: 2,
        ..Pool::default()
    };
    let below = Tick::create(5, &pool, 12, SqrtPrice::new(1));
    assert_eq!(below.fee_growth_outside_x, 3);
    assert_eq!(below.fee_growth_outside_y, 4);
    assert_eq!(below.seconds_outside, 10);
    assert_eq!(below.seconds_per_liquidity_outside, 6);
    let above = Tick::create(15, &pool, 12, SqrtPrice::new(1));
    assert_eq!(above.fee_growth_outside_x, 0);
    assert_eq!(above.seconds_outside, 0);
    assert!(above.sign);
}

fn no_price_math(_a: SqrtPrice, _s: u32) -> Result<i32, CalcError> {
    Ok(7)
}

fn never_enough(_a: TokenAmount, _p: SqrtPrice, _l: Liquidity, _f: Percentage, _b: bool, _x: bool) -> Result<bool, CalcError> {
    Ok(false)
}

fn always_enough(_a: TokenAmount, _p: SqrtPrice, _l: Liquidity, _f: Percentage, _b: bool, _x: bool) -> Result<bool, CalcError> {
    Ok(true)
}

fn swap_to(price: u128) -> SwapResult {
    SwapResult { next_sqrt_price: SqrtPrice::new(price), amount_in: amount(0), amount_out: amount(0), fee_amount: amount(0) }
}

#[test]
fn cross_tick_away_from_the_limit_takes_the_tick_at_the_price() {
    let mut pool = Pool::default();
    let mut limiting = Some((10, Some(Tick::default())));
    let mut remaining = amount(5);
    let mut total = amount(1);
    pool.cross_tick(swap_to(100), SqrtPrice::new(200), &mut limiting, &mut remaining, true, false, 0, &mut total,
        Percentage::new(0), FeeTier::default(), never_enough, no_price_math, seven_per_call);
    assert_eq!(pool.current_tick_index, 7);
    assert_eq!(remaining, amount(5));
    assert_eq!(total, amount(1));
}

#[test]
fn cross_tick_going_up_crosses_the_limiting_tick() {
    let mut pool = Pool { liquidity: Liquidity::new(u(100)), fee_growth_global_x: FeeGrowth::new(9), ..Pool::default() };
    let tick = Tick { index: 10, sign: true, liquidity_change: u(30), ..Tick::default() };
    let mut limiting = Some((10, Some(tick)));
    let mut remaining = amount(5);
    let mut total = amount(1);
    pool.cross_tick(swap_to(200), SqrtPrice::new(200), &mut limiting, &mut remaining, true, false, 0, &mut total,
        Percentage::new(0), FeeTier::default(), never_enough, no_price_math, seven_per_call);
    assert_eq!(pool.current_tick_index, 10);
    // the pool stood below the tick: crossing up adds its change
    assert_eq!(pool.liquidity, Liquidity::new(u(130)));
    let crossed = limiting.unwrap().1.unwrap();
    assert_eq!(crossed.fee_growth_outside_x, 9);
    assert_eq!(remaining, amount(5));
}

#[test]
fn cross_tick_going_down_without_enough_takes_the_rest_as_fee() {
    let mut pool = Pool { liquidity: liq(10), ..Pool::default() };
    let tick = Tick { index: 10, ..Tick::default() };
    let mut limiting = Some((10, Some(tick)));
    let mut remaining = amount(6);
    let mut total = amount(100);
    let fee_tier = FeeTier::new(Percentage::new(0), 2).unwrap();
    pool.cross_tick(swap_to(200), SqrtPrice::new(200), &mut limiting, &mut remaining, true, true, 0, &mut total,
        Percentage::from_scale(2, 1), fee_tier, never_enough, no_price_math, seven_per_call);
    assert_eq!(remaining, amount(0));
    assert_eq!(total, amount(106));
    assert_eq!(pool.fee_protocol_token_x, amount(2));
    assert_eq!(pool.fee_growth_global_x, FeeGrowth::from_scale(4, 1));
    assert_eq!(pool.current_tick_index, 10);
    assert_eq!(limiting, Some((10, Some(tick))));
}

#[test]
fn cross_tick_going_down_with_enough_lands_below_the_tick() {
    let mut pool = Pool { liquidity: Liquidity::new(u(100)), current_tick_index: 12, ..Pool::default() };
    let tick = Tick { index: 10, sign: true, liquidity_change: u(30), ..Tick::default() };
    let mut limiting = Some((10, Some(tick)));
    let mut remaining = amount(6);
    let mut total = amount(100);
    let fee_tier = FeeTier::new(Percentage::new(0), 2).unwrap();
    pool.cross_tick(swap_to(200), SqrtPrice::new(200), &mut limiting, &mut remaining, true, true, 0, &mut total,
        Percentage::new(0), fee_tier, always_enough, no_price_math, seven_per_call);
    assert_eq!(pool.current_tick_index, 8);
    assert_eq!(pool.liquidity, Liquidity::new(u(70)));
    assert_eq!(remaining, amount(6));
    assert_eq!(total, amount(100));
}

#[test]
fn modify_settles_fees_and_leaves_the_pool_liquidity() {
    let mut position = Position {
        liquidity: liq(1).get(),
        fee_growth_inside_x: 4 * 10u128.pow(28),
        fee_growth_inside_y: 4 * 10u128.pow(28),
        tokens_owed_x: u(100),
        tokens_owed_y: u(100),
        ..Position::default()
    };
    let pool = Pool { liquidity: liq(1), current_tick_index: 0, last_timestamp: 3, ..Pool::default() };
    let mut p = pool;
    let mut upper = Tick { index: 10, ..Tick::default() };
    let mut lower = Tick { index: -10, ..Tick::default() };
    let growth = |_l: (i32, FeeGrowth, FeeGrowth), _u: (i32, FeeGrowth, FeeGrowth), _p: (i32, FeeGrowth, FeeGrowth)|
        -> (FeeGrowth, FeeGrowth) { (FeeGrowth::from_integer(5), FeeGrowth::from_integer(6)) };
    let r = position.modify(&mut p, &mut upper, &mut lower, liq(1), true, 50, 1, growth);
    assert_eq!(r, Ok(()));
    assert_eq!(position.liquidity, liq(2).get());
    assert_eq!(position.tokens_owed_x, u(101));
    assert_eq!(position.tokens_owed_y, u(102));
    assert_eq!(position.fee_growth_inside_x, 5 * 10u128.pow(28));
    assert_eq!(p, pool);
    assert_eq!(upper, Tick { index: 10, ..Tick::default() });
}

#[test]
fn modify_of_an_empty_pool_starts_its_clock() {
    let mut position = Position::default();
    let mut pool = Pool::default();
    let mut upper = Tick { index: 10, ..Tick::default() };
    let mut lower = Tick { index: -10, ..Tick::default() };
    let growth = |_l: (i32, FeeGrowth, FeeGrowth), _u: (i32, FeeGrowth, FeeGrowth), _p: (i32, FeeGrowth, FeeGrowth)|
        -> (FeeGrowth, FeeGrowth) { (FeeGrowth::new(0), FeeGrowth::new(0)) };
    // an empty position poked with nothing is refused, but the clock has moved
    let r = position.modify(&mut pool, &mut upper, &mut lower, liq(0), true, 77, 1, growth);
    assert_eq!(r, Err(CalcError::EmptyPositionPokes));
    assert_eq!(pool.last_timestamp, 77);
    assert_eq!(position, Position::default());
}

#[test]
fn positions_equals_ignores_the_timing_fields() {
    let a = Position { last_block_number: 5, seconds_per_liquidity_inside: 3, ..Position::default() };
    let b = Position::default();
    assert!(positions_equals(a, b));
    let c = Position { tokens_owed_y: u(1), ..Position::default() };
    assert!(!positions_equals(b, c));
}

#[test]
fn new_pool_key_orders_the_tokens() {
    let low = Address::contract([0x01; 32]);
    let high = Address::contract([0x02; 32]);
    let key = new_pool_key(high, low, FeeTier::default()).unwrap();
    assert_eq!(key.token_x, low);
    assert_eq!(key.token_y, high);
    assert!(new_pool_key(low, low, FeeTier::default()).is_err());
}
