use invariant_clamm::address::Address;
use invariant_clamm::decimal::{Percentage, SqrtPrice};
use invariant_clamm::storage::fee_tier::FeeTier;
use invariant_clamm::storage::pool_key::PoolKey;
use invariant_clamm::storage::tickmap::{
    flip_bit_at_position, get_bit_at_position, get_search_limit, tick_to_position, Tickmap, MAX_TICK,
};

fn pool_key() -> PoolKey {
    let fee_tier = FeeTier::new(Percentage::new(0), 1).unwrap();
    PoolKey::new(Address::contract([0x01; 32]), Address::contract([0x02; 32]), fee_tier).unwrap()
}

#[test]
fn tick_to_position_counts_from_the_lowest_tick() {
    // tick 0 is 221818 ticks above the lowest: chunk 3465, bit 58
    assert_eq!(tick_to_position(0, 1), (3465, 58));
    assert_eq!(tick_to_position(-MAX_TICK, 1), (0, 0));
    assert_eq!(tick_to_position(MAX_TICK, 1), (6931, 52));
    // with a spacing of 10 the lowest usable tick is -221810, index 0
    assert_eq!(tick_to_position(-221810, 10), (0, 0));
    assert_eq!(tick_to_position(0, 10), (346, 37));
}

#[test]
fn bits_are_read_and_flipped_in_place() {
    assert_eq!(get_bit_at_position(0b1010, 1), 1);
    assert_eq!(get_bit_at_position(0b1010, 2), 0);
    assert_eq!(flip_bit_at_position(0b1010, 1), 0b1000);
    assert_eq!(flip_bit_at_position(0b1010, 63), 0b1010 | (1u64 << 63));
}

#[test]
fn search_limit_is_256_spacings_or_the_last_usable_tick() {
    assert_eq!(get_search_limit(0, 1, true), 256);
    assert_eq!(get_search_limit(0, 1, false), -256);
    assert_eq!(get_search_limit(0, 10, true), 2560);
    assert_eq!(get_search_limit(221700, 1, true), MAX_TICK);
    assert_eq!(get_search_limit(-221700, 1, false), -MAX_TICK);
    assert_eq!(get_search_limit(221700, 10, true), 221810);
}

#[test]
fn flip_then_get() {
    let mut tickmap = Tickmap::new();
    let key = pool_key();
    assert!(!tickmap.get(50, 1, key));
    tickmap.flip(true, 50, 1, key);
    assert!(tickmap.get(50, 1, key));
    assert!(!tickmap.get(49, 1, key));
    assert!(!tickmap.get(51, 1, key));
    tickmap.flip(false, 50, 1, key);
    assert!(!tickmap.get(50, 1, key));
}

#[test]
fn flip_leaves_other_pools_alone() {
    let mut tickmap = Tickmap::new();
    let key = pool_key();
    let other = PoolKey { fee_tier: FeeTier::new(Percentage::new(0), 2).unwrap(), ..key };
    tickmap.flip(true, 20, 1, key);
    assert!(!tickmap.get(20, 2, other));
    assert!(!tickmap.get(20, 1, other));
}

#[test]
fn next_and_prev_initialized() {
    let mut tickmap = Tickmap::new();
    let key = pool_key();
    tickmap.flip(true, 50, 1, key);
    tickmap.flip(true, -70, 1, key);
    assert_eq!(tickmap.next_initialized(0, 1, key), Some(50));
    assert_eq!(tickmap.next_initialized(50, 1, key), None);
    assert_eq!(tickmap.prev_initialized(100, 1, key), Some(50));
    assert_eq!(tickmap.prev_initialized(50, 1, key), Some(50));
    assert_eq!(tickmap.prev_initialized(49, 1, key), Some(-70));
    assert_eq!(tickmap.prev_initialized(-71, 1, key), None);
    // beyond the search range nothing is found
    tickmap.flip(true, 400, 1, key);
    assert_eq!(tickmap.next_initialized(60, 1, key), None);
    assert_eq!(tickmap.next_initialized(150, 1, key), Some(400));
}

#[test]
fn next_initialized_from_the_last_usable_tick_is_none() {
    let tickmap = Tickmap::new();
    assert_eq!(tickmap.next_initialized(MAX_TICK, 1, pool_key()), None);
}

#[test]
fn closer_limit_picks_the_nearer_of_tick_and_limit() {
    let mut tickmap = Tickmap::new();
    let key = pool_key();
    tickmap.flip(true, 10, 1, key);
    // the price of tick `i` stands in as 1000 + i
    let price = |i: i32| SqrtPrice::new((1000 + i) as u128);
    // going up, the initialized tick 10 comes before a limit of 1100
    let (p, limit) = tickmap.get_closer_limit(SqrtPrice::new(1100), false, 0, 1, key, price);
    assert_eq!(p, SqrtPrice::new(1010));
    assert_eq!(limit, Some((10, true)));
    // a limit of 1005 comes first
    let (p, limit) = tickmap.get_closer_limit(SqrtPrice::new(1005), false, 0, 1, key, price);
    assert_eq!(p, SqrtPrice::new(1005));
    assert_eq!(limit, None);
    // going down with nothing initialized, the search limit -256 is the candidate
    let (p, limit) = tickmap.get_closer_limit(SqrtPrice::new(0), true, 0, 1, key, price);
    assert_eq!(p, SqrtPrice::new(744));
    assert_eq!(limit, Some((-256, false)));
}
