use invariant_clamm::address::Address;
use invariant_clamm::decimal::{FeeGrowth, Liquidity, Percentage, SecondsPerLiquidity, SqrtPrice, TokenAmount};
use invariant_clamm::errors::CalcError;
use invariant_clamm::storage::fee_tier::FeeTier;
use invariant_clamm::storage::pool::Pool;
use invariant_clamm::storage::pool_key::PoolKey;
use invariant_clamm::storage::position::Position;
use invariant_clamm::storage::tick::Tick;
use invariant_clamm::uint::U256;

fn u(x: u128) -> U256 {
    U256::from_u128(x)
}

fn liq(x: u128) -> Liquidity {
    Liquidity::from_integer(u(x))
}

#[test]
fn create() {
    let init_tick = 100;
    let current_timestamp = 100;
    let fee_receiver = Address::account([0x0; 32]);
    let init_sqrt_price = SqrtPrice::new(1_005_012_269_622_000_000_000_000);

    let pool = Pool::create(init_tick, init_sqrt_price, current_timestamp, fee_receiver);

    assert_eq!(pool.sqrt_price, init_sqrt_price);
    assert_eq!(pool.current_tick_index, init_tick);
    assert_eq!(pool.start_timestamp, current_timestamp);
    assert_eq!(pool.last_timestamp, current_timestamp);
    assert_eq!(pool.fee_receiver, fee_receiver);
}

#[test]
fn test_add_fee() {
    let protocol_fee = Percentage::from_scale(2, 1);
    let pool = Pool { liquidity: liq(10), ..Pool::default() };
    // in x
    {
        let mut pool = pool.clone();
        let amount = TokenAmount::from_integer(u(6));
        pool.add_fee(amount, true, protocol_fee).unwrap();
        assert_eq!(pool.fee_growth_global_x, FeeGrowth::from_scale(4, 1));
        assert_eq!(pool.fee_growth_global_y, FeeGrowth::from_integer(0));
        assert_eq!(pool.fee_protocol_token_x, TokenAmount::new(u(2)));
        assert_eq!(pool.fee_protocol_token_y, TokenAmount::new(u(0)));
    }
    // in y
    {
        let mut pool = pool.clone();
        let amount = TokenAmount::from_integer(u(200));
        pool.add_fee(amount, false, protocol_fee).unwrap();
        assert_eq!(pool.fee_growth_global_x, FeeGrowth::from_integer(0));
        assert_eq!(pool.fee_growth_global_y, FeeGrowth::from_scale(160, 1));
        assert_eq!(pool.fee_protocol_token_x, TokenAmount::new(u(0)));
        assert_eq!(pool.fee_protocol_token_y, TokenAmount::new(u(40)));
    }
    // a single unit goes to the protocol
    {
        let mut pool = pool.clone();
        let amount = TokenAmount::new(u(1));
        pool.add_fee(amount, true, protocol_fee).unwrap();
        assert_eq!(pool.fee_growth_global_x, FeeGrowth::new(0));
        assert_eq!(pool.fee_growth_global_y, FeeGrowth::new(0));
        assert_eq!(pool.fee_protocol_token_x, TokenAmount::new(u(1)));
        assert_eq!(pool.fee_protocol_token_y, TokenAmount::new(u(0)));
    }
    let max_amount = TokenAmount::max_instance();
    let max_liquidity = Liquidity::max_instance();
    let max_protocol_fee = Percentage::from_integer(1);
    let min_protocol_fee = Percentage::from_integer(0);
    // max fee max amount max liquidity in x
    {
        let mut pool = Pool { liquidity: max_liquidity, ..Pool::default() };
        pool.add_fee(max_amount, true, max_protocol_fee).unwrap();
        assert_eq!(pool.fee_growth_global_x, FeeGrowth::from_integer(0));
        assert_eq!(pool.fee_growth_global_y, FeeGrowth::from_integer(0));
        assert_eq!(pool.fee_protocol_token_x, TokenAmount::new(U256::max_value()));
        assert_eq!(pool.fee_protocol_token_y, TokenAmount::new(u(0)));
    }
    // max fee max amount max liquidity in y
    {
        let mut pool = Pool { liquidity: max_liquidity, ..Pool::default() };
        pool.add_fee(max_amount, false, max_protocol_fee).unwrap();
        assert_eq!(pool.fee_growth_global_x, FeeGrowth::from_integer(0));
        assert_eq!(pool.fee_growth_global_y, FeeGrowth::from_integer(0));
        assert_eq!(pool.fee_protocol_token_x, TokenAmount::new(u(0)));
        assert_eq!(pool.fee_protocol_token_y, TokenAmount::new(U256::max_value()));
    }
    // min fee max amount max liquidity in x
    {
        let mut pool = Pool { liquidity: max_liquidity, ..Pool::default() };
        pool.add_fee(max_amount, true, min_protocol_fee).unwrap();
        assert_eq!(pool.fee_growth_global_x, FeeGrowth::new(1000000000000000000000000000000000u128));
        assert_eq!(pool.fee_growth_global_y, FeeGrowth::new(0));
        assert_eq!(pool.fee_protocol_token_x, TokenAmount::new(u(0)));
        assert_eq!(pool.fee_protocol_token_y, TokenAmount::new(u(0)));
    }
}

#[test]
fn test_creating_pool_key() {
    let token_x = Address::contract([0x01; 32]);
    let token_y = Address::contract([0x02; 32]);
    let fee_tier = FeeTier::default();
    let pool_key = PoolKey::new(token_x, token_y, fee_tier).unwrap();
    let rev_pool_key = PoolKey::new(token_y, token_x, fee_tier).unwrap();
    assert_eq!(pool_key.token_x, rev_pool_key.token_x);
    assert_eq!(pool_key.token_y, rev_pool_key.token_y);
}

fn liquidity_unit() -> u128 {
    10u128.pow(Liquidity::scale() as u32)
}

fn growth_unit() -> u128 {
    10u128.pow(FeeGrowth::scale() as u32)
}

#[test]
fn test_calculate_new_liquidity_safely() {
    // negative liquidity error
    {
        let position = Position { liquidity: u(liquidity_unit()), ..Position::default() };
        let result = position.calculate_new_liquidity_safely(false, liq(2));
        assert!(result.is_err());
    }
    // adding liquidity
    {
        let position = Position { liquidity: u(2 * liquidity_unit()), ..Position::default() };
        let new_liquidity = position.calculate_new_liquidity_safely(true, liq(2)).unwrap();
        assert_eq!(new_liquidity, u(4 * liquidity_unit()));
    }
    // subtracting liquidity
    {
        let position = Position { liquidity: u(2 * liquidity_unit()), ..Position::default() };
        let new_liquidity = position.calculate_new_liquidity_safely(false, liq(2)).unwrap();
        assert_eq!(new_liquidity, u(0));
    }
}

#[test]
fn position_test_update() {
    // an update that changes nothing of an empty position is refused
    {
        let mut position = Position { liquidity: u(0), ..Position::default() };
        let result = position.update(true, liq(0), FeeGrowth::from_integer(1), FeeGrowth::from_integer(1));
        assert!(result.is_err());
    }
    // zero liquidity earns no fee
    {
        let mut position = Position {
            liquidity: u(0),
            fee_growth_inside_x: 4 * growth_unit(),
            fee_growth_inside_y: 4 * growth_unit(),
            tokens_owed_x: u(100),
            tokens_owed_y: u(100),
            ..Position::default()
        };
        position.update(true, liq(1), FeeGrowth::from_integer(5), FeeGrowth::from_integer(5)).unwrap();
        assert_eq!(position.liquidity, u(liquidity_unit()));
        assert_eq!(position.fee_growth_inside_x, 5 * growth_unit());
        assert_eq!(position.fee_growth_inside_y, 5 * growth_unit());
        assert_eq!(position.tokens_owed_x, u(100));
        assert_eq!(position.tokens_owed_y, u(100));
    }
    // the fee grows
    {
        let mut position = Position {
            liquidity: u(liquidity_unit()),
            fee_growth_inside_x: 4 * growth_unit(),
            fee_growth_inside_y: 4 * growth_unit(),
            tokens_owed_x: u(100),
            tokens_owed_y: u(100),
            ..Position::default()
        };
        position.update(true, liq(1), FeeGrowth::from_integer(5), FeeGrowth::from_integer(5)).unwrap();
        assert_eq!(position.liquidity, u(2 * liquidity_unit()));
        assert_eq!(position.fee_growth_inside_x, 5 * growth_unit());
        assert_eq!(position.fee_growth_inside_y, 5 * growth_unit());
        assert_eq!(position.tokens_owed_x, u(101));
        assert_eq!(position.tokens_owed_y, u(101));
    }
    // the previous fee growth inside close to the maximum and the current close to zero
    {
        let mut position = Position {
            liquidity: u(liquidity_unit()),
            fee_growth_inside_x: u128::MAX - 10 * growth_unit(),
            fee_growth_inside_y: u128::MAX - 10 * growth_unit(),
            tokens_owed_x: u(100),
            tokens_owed_y: u(100),
            ..Position::default()
        };
        position.update(true, liq(1), FeeGrowth::from_integer(10), FeeGrowth::from_integer(10)).unwrap();
        assert_eq!(position.liquidity, u(2 * liquidity_unit()));
        assert_eq!(position.fee_growth_inside_x, 10 * growth_unit());
        assert_eq!(position.fee_growth_inside_y, 10 * growth_unit());
        assert_eq!(position.tokens_owed_x, u(120));
        assert_eq!(position.tokens_owed_y, u(120));
    }
}

#[test]
fn test_update_liquidity_change() {
    // the tick's sign and the change's sign agree
    {
        let mut tick = Tick { sign: true, liquidity_change: liq(2).get(), ..Tick::default() };
        tick.update_liquidity_change(liq(3), true);
        assert_eq!(tick.sign, true);
        assert_eq!(Liquidity::new(tick.liquidity_change), liq(5));
    }
    {
        let mut tick = Tick { sign: false, liquidity_change: liq(2).get(), ..Tick::default() };
        tick.update_liquidity_change(liq(3), false);
        assert_eq!(tick.sign, false);
        assert_eq!(Liquidity::new(tick.liquidity_change), liq(5));
    }
    // the signs differ
    {
        let mut tick = Tick { sign: true, liquidity_change: liq(2).get(), ..Tick::default() };
        tick.update_liquidity_change(liq(3), false);
        assert_eq!(tick.sign, false);
        assert_eq!(Liquidity::new(tick.liquidity_change), liq(1));
    }
    {
        let mut tick = Tick { sign: false, liquidity_change: liq(2).get(), ..Tick::default() };
        tick.update_liquidity_change(liq(3), true);
        assert_eq!(tick.sign, true);
        assert_eq!(Liquidity::new(tick.liquidity_change), liq(1));
    }
}

#[test]
fn tick_test_update() {
    let max_liquidity = Liquidity::new(u(u128::MAX));
    {
        let mut tick = Tick {
            index: 0,
            sign: true,
            liquidity_change: liq(2).get(),
            liquidity_gross: liq(2).get(),
            fee_growth_outside_x: FeeGrowth::from_integer(2).get(),
            fee_growth_outside_y: FeeGrowth::from_integer(2).get(),
            ..Tick::default()
        };
        tick.update(liq(1), max_liquidity, false, true).unwrap();
        assert_eq!(tick.sign, true);
        assert_eq!(Liquidity::new(tick.liquidity_change), liq(3));
        assert_eq!(Liquidity::new(tick.liquidity_gross), liq(3));
        assert_eq!(FeeGrowth::new(tick.fee_growth_outside_x), FeeGrowth::from_integer(2));
        assert_eq!(FeeGrowth::new(tick.fee_growth_outside_y), FeeGrowth::from_integer(2));
    }
    {
        let mut tick = Tick {
            index: 5,
            sign: true,
            liquidity_change: liq(3).get(),
            liquidity_gross: liq(7).get(),
            fee_growth_outside_x: FeeGrowth::from_integer(13).get(),
            fee_growth_outside_y: FeeGrowth::from_integer(11).get(),
            ..Tick::default()
        };
        tick.update(liq(1), max_liquidity, true, true).unwrap();
        assert_eq!(tick.sign, true);
        assert_eq!(Liquidity::new(tick.liquidity_change), liq(2));
        assert_eq!(Liquidity::new(tick.liquidity_gross), liq(8));
        assert_eq!(FeeGrowth::new(tick.fee_growth_outside_x), FeeGrowth::from_integer(13));
        assert_eq!(FeeGrowth::new(tick.fee_growth_outside_y), FeeGrowth::from_integer(11));
    }
    // the gross liquidity would exceed the maximum per tick
    {
        let mut tick = Tick {
            sign: true,
            liquidity_change: liq(100_000).get(),
            liquidity_gross: liq(100_000).get(),
            fee_growth_outside_x: FeeGrowth::from_integer(1000).get(),
            fee_growth_outside_y: FeeGrowth::from_integer(1000).get(),
            ..Tick::default()
        };
        let max_liquidity_per_tick = liq(1_000_000);
        let liquidity_delta = Liquidity::new(max_liquidity_per_tick.get().add(&u(1)));
        let result = tick.update(liquidity_delta, max_liquidity_per_tick, false, true);
        assert!(result.is_err());
    }
}

fn amount(x: u128) -> TokenAmount {
    TokenAmount::new(u(x))
}

/// Stands in for the price math's amount delta: the amounts the price math
/// gives in each situation below, and whether the range holds the current tick.
fn amount_delta_stand_in(current: i32, _price: SqrtPrice, _delta: Liquidity, _sign: bool, upper: i32, lower: i32)
    -> Result<(TokenAmount, TokenAmount, bool), CalcError>
{
    let (x, y) = match (current, upper, lower) {
        (2, 3, 0) => (51, 700),
        (2, 4, 0) => (300, 700),
        (6, 4, 0) => (0, 1),
        (-2, 4, 0) => (1, 0),
        (2, 3, 1) => (2500375009372499999999997, 5),
        _ => (0, 0),
    };
    Ok((amount(x), amount(y), lower <= current && current < upper))
}

#[test]
fn test_update_liquidity() {
    // add liquidity, the current tick between the lower and the upper tick
    {
        let mut pool = Pool {
            liquidity: liq(0),
            sqrt_price: SqrtPrice::new(1000140000000_000000000000u128),
            current_tick_index: 2,
            ..Pool::default()
        };
        let liquidity_delta = liq(5_000_000);
        let (x, y) = pool.update_liquidity(liquidity_delta, true, 3, 0, amount_delta_stand_in).unwrap();
        assert_eq!(x, amount(51));
        assert_eq!(y, amount(700));
        assert_eq!(pool.liquidity, liquidity_delta);
    }
    {
        let mut pool = Pool {
            liquidity: liq(0),
            sqrt_price: SqrtPrice::new(1000140000000_000000000000u128),
            current_tick_index: 2,
            ..Pool::default()
        };
        let liquidity_delta = liq(5_000_000);
        let (x, y) = pool.update_liquidity(liquidity_delta, true, 4, 0, amount_delta_stand_in).unwrap();
        assert_eq!(x, amount(300));
        assert_eq!(y, amount(700));
        assert_eq!(pool.liquidity, liquidity_delta);
    }
    // the range does not hold the current tick: the pool's liquidity stays
    {
        let mut pool = Pool {
            liquidity: liq(1),
            sqrt_price: SqrtPrice::new(1000140000000_000000000000u128),
            current_tick_index: 6,
            ..Pool::default()
        };
        let (x, y) = pool.update_liquidity(liq(12), true, 4, 0, amount_delta_stand_in).unwrap();
        assert_eq!(x, amount(0));
        assert_eq!(y, amount(1));
        assert_eq!(pool.liquidity, liq(1));
    }
    {
        let mut pool = Pool {
            liquidity: liq(1),
            sqrt_price: SqrtPrice::new(1000140000000_000000000000u128),
            current_tick_index: -2,
            ..Pool::default()
        };
        let (x, y) = pool.update_liquidity(liq(12), true, 4, 0, amount_delta_stand_in).unwrap();
        assert_eq!(x, amount(1));
        assert_eq!(y, amount(0));
        assert_eq!(pool.liquidity, liq(1));
    }
    // remove liquidity
    {
        let mut pool = Pool {
            liquidity: liq(10),
            current_tick_index: 2,
            sqrt_price: SqrtPrice::new(1),
            ..Pool::default()
        };
        let (x, y) = pool.update_liquidity(liq(5), false, 3, 1, amount_delta_stand_in).unwrap();
        assert_eq!(x, amount(2500375009372499999999997u128));
        assert_eq!(y, amount(5));
        assert_eq!(pool.liquidity, liq(5));
    }
}

/// Stands in for the price math's global seconds per liquidity: a tenth of
/// a second per unit of liquidity for each second passed, as for the pool below.
fn seconds_per_liquidity_global_stand_in(_liquidity: Liquidity, now: u64, last: u64)
    -> Result<SecondsPerLiquidity, CalcError>
{
    Ok(SecondsPerLiquidity::new((now - last) as u128 * 10u128.pow(22)))
}

/// Stands in for the price math's seconds per liquidity inside a range: the
/// global value less what lies below the lower tick and above the upper
/// tick, wrapping.
fn seconds_per_liquidity_inside_stand_in(tick_lower: i32, tick_upper: i32, tick_current: i32,
    lower_outside: SecondsPerLiquidity, upper_outside: SecondsPerLiquidity, global: SecondsPerLiquidity)
    -> Result<SecondsPerLiquidity, CalcError>
{
    let below = if tick_current >= tick_lower { lower_outside.get() } else { global.get().wrapping_sub(lower_outside.get()) };
    let above = if tick_current >= tick_upper { global.get().wrapping_sub(upper_outside.get()) } else { upper_outside.get() };
    Ok(SecondsPerLiquidity::new(global.get().wrapping_sub(below).wrapping_sub(above)))
}

#[test]
fn test_update_seconds_per_liquidity_inside() {
    let mut tick_lower = Tick { index: 0, seconds_per_liquidity_outside: 3012300000u128, ..Tick::default() };
    let mut tick_upper = Tick { index: 10, seconds_per_liquidity_outside: 2030400000u128, ..Tick::default() };
    let mut pool = Pool {
        liquidity: liq(1000),
        start_timestamp: 0,
        last_timestamp: 0,
        seconds_per_liquidity_global: SecondsPerLiquidity::new(0),
        ..Pool::default()
    };
    let mut current_timestamp = 0;
    let inside = |pool: &mut Pool, lower: &Tick, upper: &Tick, now: u64| {
        pool.update_seconds_per_liquidity_inside(
            lower.index,
            SecondsPerLiquidity::new(lower.seconds_per_liquidity_outside),
            upper.index,
            SecondsPerLiquidity::new(upper.seconds_per_liquidity_outside),
            now,
            seconds_per_liquidity_global_stand_in,
            seconds_per_liquidity_inside_stand_in,
        )
    };
    {
        current_timestamp += 100;
        pool.current_tick_index = -10;
        let r = inside(&mut pool, &tick_lower, &tick_upper, current_timestamp);
        assert_eq!(r.unwrap().get(), 981900000);
    }
    {
        current_timestamp += 100;
        pool.current_tick_index = 0;
        let r = inside(&mut pool, &tick_lower, &tick_upper, current_timestamp);
        assert_eq!(r.unwrap().get(), 1999999999999994957300000u128);
    }
    {
        current_timestamp += 100;
        tick_lower.seconds_per_liquidity_outside = 2012333200u128;
        tick_upper.seconds_per_liquidity_outside = 3012333310u128;
        pool.current_tick_index = 20;
        let r = inside(&mut pool, &tick_lower, &tick_upper, current_timestamp);
        assert_eq!(r.unwrap().get(), 1000000110u128);
    }
    {
        current_timestamp += 100;
        tick_lower.seconds_per_liquidity_outside = 201233320000u128;
        tick_upper.seconds_per_liquidity_outside = 301233331000u128;
        pool.current_tick_index = 20;
        let r = inside(&mut pool, &tick_lower, &tick_upper, current_timestamp);
        assert_eq!(r.unwrap().get(), 100000011000u128);
    }
    {
        current_timestamp += 100;
        pool.current_tick_index = -20;
        let r = inside(&mut pool, &tick_lower, &tick_upper, current_timestamp);
        assert_eq!(r.unwrap().get(), 340282366920938463463374607331768200456u128);
        assert_eq!(pool.seconds_per_liquidity_global.get(), 5000000000000000000000000u128);
    }
    // with no liquidity only the timestamp moves
    {
        current_timestamp += 100;
        pool.liquidity = Liquidity::new(u(0));
        let r = inside(&mut pool, &tick_lower, &tick_upper, current_timestamp);
        assert_eq!(pool.last_timestamp, current_timestamp);
        assert_eq!(r.unwrap().get(), 340282366920938463463374607331768200456u128);
        assert_eq!(pool.seconds_per_liquidity_global.get(), 5000000000000000000000000u128);
    }
    // with liquidity again
    {
        current_timestamp += 100;
        pool.liquidity = liq(1000);
        let r = inside(&mut pool, &tick_lower, &tick_upper, current_timestamp);
        assert_eq!(pool.last_timestamp, current_timestamp);
        assert_eq!(r.unwrap().get(), 340282366920938463463374607331768200456u128);
        assert_eq!(pool.seconds_per_liquidity_global.get(), 6000000000000000000000000u128);
    }
    // with no liquidity again
    {
        current_timestamp += 100;
        pool.liquidity = Liquidity::new(u(0));
        let r = inside(&mut pool, &tick_lower, &tick_upper, current_timestamp);
        assert_eq!(pool.last_timestamp, current_timestamp);
        assert_eq!(r.unwrap().get(), 340282366920938463463374607331768200456u128);
        assert_eq!(pool.seconds_per_liquidity_global.get(), 6000000000000000000000000u128);
    }
}
