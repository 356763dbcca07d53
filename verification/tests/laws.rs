use invariant_clamm::address::Address;
use invariant_clamm::collections::positions::Positions;
use invariant_clamm::decimal::{Liquidity, SqrtPrice, TokenAmount};
use invariant_clamm::erc20::Erc20;
use invariant_clamm::errors::{unwrap_invariant_result, CalcError, InvariantError};
use invariant_clamm::storage::pool::Pool;
use invariant_clamm::storage::position::Position;
use invariant_clamm::storage::tick::Tick;
use invariant_clamm::uint::U256;

fn u(x: u128) -> U256 {
    U256::from_u128(x)
}

fn liq(x: u128) -> Liquidity {
    Liquidity::from_integer(u(x))
}

#[test]
fn tick_withdraw_undoes_deposit() {
    let max = Liquidity::new(u(u128::MAX));
    for is_upper in [false, true] {
        let tick = Tick { index: 3, sign: true, liquidity_change: liq(2).get(), liquidity_gross: liq(5).get(), ..Tick::default() };
        let mut t = tick;
        t.update(liq(4), max, is_upper, true).unwrap();
        t.update(liq(4), max, is_upper, false).unwrap();
        assert_eq!(t, tick);
    }
}

#[test]
fn pool_remove_liquidity_undoes_add() {
    let in_range = |_t: i32, _p: SqrtPrice, _l: Liquidity, _s: bool, _u: i32, _lo: i32|
        -> Result<(TokenAmount, TokenAmount, bool), CalcError> {
        Ok((TokenAmount::new(u(1)), TokenAmount::new(u(2)), true))
    };
    let pool = Pool { liquidity: liq(7), current_tick_index: 4, ..Pool::default() };
    let mut p = pool;
    p.update_liquidity(liq(3), true, 10, 0, in_range).unwrap();
    p.update_liquidity(liq(3), false, 10, 0, in_range).unwrap();
    assert_eq!(p, pool);
}

#[test]
fn positions_remove_of_the_last_undoes_add() {
    let account = Address::account([0x05; 32]);
    let mut positions = Positions::default();
    let a = Position { lower_tick_index: -1, ..Position::default() };
    let b = Position { lower_tick_index: -2, ..Position::default() };
    positions.add(account, &a);
    positions.add(account, &b);
    assert_eq!(positions.remove(account, 1), Ok(b));
    assert_eq!(positions.get_all(account), vec![a]);
}

#[test]
fn burn_undoes_mint() {
    let alice = Address::account([0x01; 32]);
    let (mut token, _) = Erc20::init(alice, String::from("T"), String::from("T"), 0, Some(u(10)));
    token.mint(&alice, &u(5));
    token.burn(&alice, &u(5)).unwrap();
    assert_eq!(token.balance_of(&alice), u(10));
    assert_eq!(token.total_supply(), u(10));
}

#[test]
fn balances_add_up_to_the_supply() {
    let alice = Address::account([0x01; 32]);
    let bob = Address::account([0x02; 32]);
    let carol = Address::account([0x03; 32]);
    let (mut token, _) = Erc20::init(alice, String::from("T"), String::from("T"), 0, Some(u(1000)));
    token.transfer(alice, &bob, &u(250)).unwrap();
    token.mint(&carol, &u(40));
    token.burn(&bob, &u(50)).unwrap();
    token.approve(alice, &carol, &u(100));
    token.transfer_from(carol, &alice, &bob, &u(60)).unwrap();
    let sum = 690u128 + 260 + 40;
    assert_eq!(token.balance_of(&alice), u(690));
    assert_eq!(token.balance_of(&bob), u(260));
    assert_eq!(token.balance_of(&carol), u(40));
    assert_eq!(token.total_supply(), u(sum));
}

#[test]
fn error_codes_are_distinct() {
    let errors = [
        InvariantError::NotAdmin,
        InvariantError::PoolNotFound,
        InvariantError::PositionNotFound,
        InvariantError::InvalidInitSqrtPrice,
    ];
    assert_eq!(errors.iter().map(|e| e.code()).collect::<Vec<u16>>(), vec![0, 3, 6, 25]);
}

#[test]
fn invariant_results_become_codes() {
    assert_eq!(unwrap_invariant_result(Ok::<u8, InvariantError>(5)), Ok(5));
    assert_eq!(unwrap_invariant_result(Err::<u8, InvariantError>(InvariantError::PoolNotFound)), Err(3));
    assert_eq!(unwrap_invariant_result(Err::<u8, InvariantError>(InvariantError::TokensAreSame)), Err(20));
}

#[test]
fn tick_update_refused_by_the_gross_check_even_where_the_change_would_overflow() {
    let mut tick = Tick {
        sign: true,
        liquidity_change: U256::max_value(),
        liquidity_gross: liq(100_000).get(),
        ..Tick::default()
    };
    let before = tick;
    let max_liquidity_per_tick = liq(1_000_000);
    let liquidity_delta = Liquidity::new(max_liquidity_per_tick.get().add(&u(1)));
    assert_eq!(tick.update(liquidity_delta, max_liquidity_per_tick, false, true), Err(CalcError::InvalidTickLiquidity));
    assert_eq!(tick, before);
}

fn seven_per_call(_l: Liquidity, _now: u64, _last: u64) -> Result<invariant_clamm::decimal::SecondsPerLiquidity, CalcError> {
    Ok(invariant_clamm::decimal::SecondsPerLiquidity::new(7))
}

#[test]
fn crossing_twice_at_one_time_restores_the_seconds_outside() {
    let mut pool = Pool { liquidity: liq(1), start_timestamp: 4, ..Pool::default() };
    let tick = Tick { index: 0, seconds_outside: 3, ..Tick::default() };
    let mut t = tick;
    t.cross(&mut pool, 10, seven_per_call).unwrap();
    assert_eq!(t.seconds_outside, 3);
    let tick = Tick { index: 0, seconds_outside: 9, ..Tick::default() };
    let mut t = tick;
    t.cross(&mut pool, 10, seven_per_call).unwrap();
    // 6 seconds passed since the start: 6 - 9 wraps
    assert_eq!(t.seconds_outside, u64::MAX - 2);
    t.cross(&mut pool, 10, seven_per_call).unwrap();
    assert_eq!(t.seconds_outside, 9);
}
