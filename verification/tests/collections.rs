use invariant_clamm::address::Address;
use invariant_clamm::collections::fee_tiers::FeeTiers;
use invariant_clamm::collections::pools::Pools;
use invariant_clamm::collections::positions::Positions;
use invariant_clamm::collections::ticks::Ticks;
use invariant_clamm::decimal::Percentage;
use invariant_clamm::errors::InvariantError;
use invariant_clamm::storage::fee_tier::FeeTier;
use invariant_clamm::storage::pool::Pool;
use invariant_clamm::storage::pool_key::PoolKey;
use invariant_clamm::storage::position::Position;
use invariant_clamm::storage::tick::Tick;

fn two_tokens() -> (Address, Address) {
    (Address::contract([0x01; 32]), Address::contract([0x02; 32]))
}

#[test]
fn fee_tiers_test_add() {
    let fee_tier_keys = &mut FeeTiers::default();
    let fee_tier_key = FeeTier::default();
    let new_fee_tier_key = FeeTier::new(Percentage::new(0), 2).unwrap();

    fee_tier_keys.add(fee_tier_key).unwrap();
    assert!(fee_tier_keys.contains(fee_tier_key));
    assert!(!fee_tier_keys.contains(new_fee_tier_key));

    let result = fee_tier_keys.add(fee_tier_key);
    assert_eq!(result, Err(InvariantError::FeeTierAlreadyExist));
}

#[test]
fn fee_tiers_test_remove() {
    let fee_tier_keys = &mut FeeTiers::default();
    let fee_tier_key = FeeTier::default();

    fee_tier_keys.add(fee_tier_key).unwrap();

    fee_tier_keys.remove(fee_tier_key).unwrap();
    assert!(!fee_tier_keys.contains(fee_tier_key));

    let result = fee_tier_keys.remove(fee_tier_key);
    assert_eq!(result, Err(InvariantError::FeeTierNotFound));
}

#[test]
fn fee_tiers_test_get_all() {
    let fee_tier_keys = &mut FeeTiers::default();
    let fee_tier_key = FeeTier::default();
    let new_fee_tier_key = FeeTier::new(Percentage::new(0), 2).unwrap();

    let result = fee_tier_keys.get_all();
    assert_eq!(result, vec![]);
    assert_eq!(result.len(), 0);

    fee_tier_keys.add(fee_tier_key).unwrap();
    fee_tier_keys.add(new_fee_tier_key).unwrap();

    let result = fee_tier_keys.get_all();
    assert_eq!(result, vec![fee_tier_key, new_fee_tier_key]);
    assert_eq!(result.len(), 2);
}

#[test]
fn fee_tiers_remove_keeps_order_of_the_rest() {
    let tiers = &mut FeeTiers::default();
    let a = FeeTier::new(Percentage::new(0), 1).unwrap();
    let b = FeeTier::new(Percentage::new(0), 2).unwrap();
    let c = FeeTier::new(Percentage::new(0), 3).unwrap();
    tiers.add(a).unwrap();
    tiers.add(b).unwrap();
    tiers.add(c).unwrap();
    tiers.remove(b).unwrap();
    assert_eq!(tiers.get_all(), vec![a, c]);
}

#[test]
fn pools_test_add() {
    let pools = &mut Pools::default();
    let (token_x, token_y) = two_tokens();
    let fee_tier = FeeTier::new(Percentage::new(0), 1).unwrap();
    let new_fee_tier = FeeTier::new(Percentage::new(0), 2).unwrap();
    let pool_key = PoolKey::new(token_x, token_y, fee_tier).unwrap();
    let new_pool_key = PoolKey::new(token_x, token_y, new_fee_tier).unwrap();
    let pool = Pool::default();

    pools.add(pool_key, &pool).unwrap();

    assert_eq!(pools.get(pool_key).unwrap(), pool);

    assert_eq!(pools.get(new_pool_key), Err(InvariantError::PoolNotFound));

    assert_eq!(pools.add(pool_key, &pool), Err(InvariantError::PoolAlreadyExist));
}

#[test]
fn pools_test_update() {
    let pools = &mut Pools::default();
    let (token_x, token_y) = two_tokens();
    let fee_tier = FeeTier::new(Percentage::new(0), 1).unwrap();
    let new_fee_tier = FeeTier::new(Percentage::new(0), 2).unwrap();
    let pool_key = PoolKey::new(token_x, token_y, fee_tier).unwrap();
    let new_pool_key = PoolKey::new(token_x, token_y, new_fee_tier).unwrap();
    let pool = Pool::default();
    let new_pool = Pool { current_tick_index: 1, ..Pool::default() };

    pools.add(pool_key, &pool).unwrap();

    pools.update(pool_key, &new_pool).unwrap();
    assert_eq!(pools.get(pool_key).unwrap(), new_pool);

    assert_eq!(pools.update(new_pool_key, &new_pool), Err(InvariantError::PoolNotFound));
}

#[test]
fn pools_test_remove() {
    let pools = &mut Pools::default();
    let (token_x, token_y) = two_tokens();
    let fee_tier = FeeTier::new(Percentage::new(0), 1).unwrap();
    let pool_key = PoolKey::new(token_x, token_y, fee_tier).unwrap();
    let pool = Pool::default();

    pools.add(pool_key, &pool).unwrap();

    pools.remove(pool_key).unwrap();

    assert_eq!(pools.get(pool_key), Err(InvariantError::PoolNotFound));

    assert_eq!(pools.remove(pool_key), Err(InvariantError::PoolNotFound));
}

fn two_positions() -> (Position, Position) {
    let position = Position::default();
    let new_position = Position { lower_tick_index: -1, upper_tick_index: 1, ..Position::default() };
    (position, new_position)
}

#[test]
fn positions_test_add() {
    let positions = &mut Positions::default();
    let account_id = Address::account([0x01; 32]);
    let (position, new_position) = two_positions();

    positions.add(account_id, &position);
    positions.add(account_id, &new_position);

    assert_eq!(positions.get(account_id, 0).unwrap(), position);
    assert_eq!(positions.get(account_id, 1).unwrap(), new_position);
    assert_eq!(positions.get(account_id, 2), None);
    assert_eq!(positions.get_length(account_id), 2);
}

#[test]
fn positions_test_update() {
    let positions = &mut Positions::default();
    let account_id = Address::account([0x01; 32]);
    let (position, new_position) = two_positions();

    positions.add(account_id, &position);

    positions.update(account_id, 0, &new_position).unwrap();
    assert_eq!(positions.get(account_id, 0).unwrap(), new_position);
    assert_eq!(positions.get_length(account_id), 1);

    assert_eq!(positions.update(account_id, 1, &new_position), Err(InvariantError::PositionNotFound));
}

#[test]
fn positions_test_remove() {
    let positions = &mut Positions::default();
    let account_id = Address::account([0x01; 32]);
    let (position, new_position) = two_positions();

    positions.add(account_id, &position);
    positions.add(account_id, &new_position);

    let result = positions.remove(account_id, 0).unwrap();
    assert_eq!(result, position);
    assert_eq!(positions.get(account_id, 0).unwrap(), new_position);
    assert_eq!(positions.get_length(account_id), 1);

    let result = positions.remove(account_id, 0).unwrap();
    assert_eq!(result, new_position);
    assert_eq!(positions.get(account_id, 0), None);
    assert_eq!(positions.get_length(account_id), 0);

    assert_eq!(positions.remove(account_id, 0), Err(InvariantError::PositionNotFound));
}

#[test]
fn test_transfer() {
    let positions = &mut Positions::default();
    let account_id = Address::account([0x01; 32]);
    let receiver_account_id = Address::account([0x02; 32]);
    let position = Position::default();

    positions.add(account_id, &position);

    positions.transfer(account_id, 0, receiver_account_id).unwrap();
    assert_eq!(positions.get(account_id, 0), None);
    assert_eq!(positions.get_length(account_id), 0);
    assert_eq!(positions.get(receiver_account_id, 0).unwrap(), position);
    assert_eq!(positions.get_length(receiver_account_id), 1);

    assert_eq!(
        positions.transfer(account_id, 0, receiver_account_id),
        Err(InvariantError::PositionNotFound)
    );
}

#[test]
fn positions_test_get_all() {
    let positions = &mut Positions::default();
    let account_id = Address::account([0x01; 32]);
    let (position, new_position) = two_positions();

    let result = positions.get_all(account_id);
    assert_eq!(result, vec![]);
    assert_eq!(result.len(), 0);
    assert_eq!(positions.get_length(account_id), 0);

    positions.add(account_id, &position);
    positions.add(account_id, &new_position);

    let result = positions.get_all(account_id);
    assert_eq!(result, vec![position, new_position]);
    assert_eq!(result.len(), 2);
    assert_eq!(positions.get_length(account_id), 2);
}

#[test]
fn test_get_length() {
    let positions = &mut Positions::default();
    let account_id = Address::account([0x01; 32]);
    let (position, new_position) = two_positions();

    let result = positions.get_length(account_id);
    assert_eq!(result, 0);

    positions.add(account_id, &position);
    positions.add(account_id, &new_position);

    let result = positions.get_length(account_id);
    assert_eq!(result, 2);
}

#[test]
fn positions_remove_moves_last_into_the_gap() {
    let positions = &mut Positions::default();
    let account_id = Address::account([0x01; 32]);
    let a = Position { lower_tick_index: -3, ..Position::default() };
    let b = Position { lower_tick_index: -2, ..Position::default() };
    let c = Position { lower_tick_index: -1, ..Position::default() };
    positions.add(account_id, &a);
    positions.add(account_id, &b);
    positions.add(account_id, &c);

    assert_eq!(positions.remove(account_id, 0), Ok(a));
    assert_eq!(positions.get_all(account_id), vec![c, b]);
}

#[test]
fn positions_transfer_to_self_moves_to_the_end() {
    let positions = &mut Positions::default();
    let account_id = Address::account([0x01; 32]);
    let a = Position { lower_tick_index: -3, ..Position::default() };
    let b = Position { lower_tick_index: -2, ..Position::default() };
    positions.add(account_id, &a);
    positions.add(account_id, &b);

    positions.transfer(account_id, 0, account_id).unwrap();
    assert_eq!(positions.get_all(account_id), vec![b, a]);
}

fn tick_pool_key() -> PoolKey {
    let (token_x, token_y) = two_tokens();
    let fee_tier = FeeTier::new(Percentage::new(0), 1).unwrap();
    PoolKey::new(token_x, token_y, fee_tier).unwrap()
}

#[test]
fn ticks_test_add() {
    let ticks = &mut Ticks::default();
    let pool_key = tick_pool_key();
    let tick = Tick::default();

    ticks.add(pool_key, 0, &tick).unwrap();
    assert_eq!(ticks.get(pool_key, 0).unwrap(), tick);

    assert_eq!(ticks.get(pool_key, 1), Err(InvariantError::TickNotFound));

    assert_eq!(ticks.add(pool_key, 0, &tick), Err(InvariantError::TickAlreadyExist));
}

#[test]
fn ticks_test_update() {
    let ticks = &mut Ticks::default();
    let pool_key = tick_pool_key();
    let tick = Tick::default();
    let new_tick = Tick { seconds_outside: 1, ..Tick::default() };

    ticks.add(pool_key, 0, &tick).unwrap();

    ticks.update(pool_key, 0, &new_tick).unwrap();

    assert_eq!(ticks.get(pool_key, 0).unwrap(), new_tick);

    assert_eq!(ticks.update(pool_key, 1, &new_tick), Err(InvariantError::TickNotFound));
}

#[test]
fn ticks_test_remove() {
    let ticks = &mut Ticks::default();
    let pool_key = tick_pool_key();
    let tick = Tick::default();

    ticks.add(pool_key, 0, &tick).unwrap();

    ticks.remove(pool_key, 0).unwrap();

    assert_eq!(ticks.get(pool_key, 0), Err(InvariantError::TickNotFound));

    assert_eq!(ticks.remove(pool_key, 0), Err(InvariantError::TickNotFound));
}

#[test]
fn test_recreation() {
    let ticks = &mut Ticks::default();
    let pool_key = tick_pool_key();
    let tick = Tick::default();

    assert_eq!(ticks.get(pool_key, 0), Err(InvariantError::TickNotFound));

    ticks.add(pool_key, 0, &tick).unwrap();
    assert_eq!(ticks.get(pool_key, 0).unwrap(), tick);

    ticks.remove(pool_key, 0).unwrap();
    assert_eq!(ticks.get(pool_key, 0), Err(InvariantError::TickNotFound));

    ticks.add(pool_key, 0, &tick).unwrap();
    assert_eq!(ticks.get(pool_key, 0).unwrap(), tick);
}
