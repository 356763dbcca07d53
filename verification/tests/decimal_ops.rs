use invariant_clamm::decimal::{FeeGrowth, FixedPoint, Liquidity, Percentage, TokenAmount};
use invariant_clamm::decimal_ops::{BigOps, ByNumber, FactoriesToValue};
use invariant_clamm::uint::{U256, U512};

fn u(x: u128) -> U256 {
    U256::from_u128(x)
}

fn wide(x: u128) -> U512 {
    U512::from_u256(u(x))
}

#[test]
fn big_mul_by_one_keeps_the_value() {
    let a = Percentage::new(2);
    assert_eq!(a.big_mul(Percentage::one()), Percentage::new(2));
    assert_eq!(a.big_mul_up(Percentage::one()), Percentage::new(2));
}

#[test]
fn big_mul_rounds_down_or_up() {
    let ten_percent = Percentage::from_scale(1, 1);
    assert_eq!(TokenAmount::new(u(101)).big_mul(ten_percent), TokenAmount::new(u(10)));
    assert_eq!(TokenAmount::new(u(101)).big_mul_up(ten_percent), TokenAmount::new(u(11)));
    assert_eq!(TokenAmount::new(u(100)).big_mul_up(ten_percent), TokenAmount::new(u(10)));
}

#[test]
fn big_div_rounds_down_or_up() {
    let five = Liquidity::new(u(500_000));
    let two = Liquidity::new(u(200_000));
    assert_eq!(five.big_div(two), Liquidity::new(u(250_000)));
    let tiny = Liquidity::new(u(1));
    let three = Liquidity::new(u(300_000));
    assert_eq!(tiny.big_div(three), Liquidity::new(u(0)));
    assert_eq!(tiny.big_div_up(three), Liquidity::new(u(1)));
}

#[test]
fn checked_big_div_refuses_zero_and_overflow() {
    let five = Liquidity::new(u(500_000));
    assert!(five.checked_big_div(Liquidity::new(u(0))).is_err());
    assert_eq!(five.checked_big_div(Liquidity::new(u(200_000))), Ok(Liquidity::new(u(250_000))));
    // a 128-bit result cannot hold u128::MAX divided by one half
    let max = Percentage::new(u128::MAX);
    assert!(max.checked_big_div(Percentage::from_scale(5, 1)).is_err());
}

#[test]
fn division_by_a_number() {
    let three = FixedPoint::from_integer(3);
    let two = wide(2_000_000_000_000);
    assert_eq!(three.big_div_by_number(two), FixedPoint::new(1_500_000_000_000));
    assert_eq!(three.checked_big_div_by_number(two), Ok(FixedPoint::new(1_500_000_000_000)));
    assert!(three.checked_big_div_by_number(wide(0)).is_err());
    let one_raw = FixedPoint::new(1);
    assert_eq!(one_raw.big_div_by_number(wide(3)), FixedPoint::new(333_333_333_333));
    assert_eq!(one_raw.big_div_by_number_up(wide(3)), FixedPoint::new(333_333_333_334));
    assert_eq!(one_raw.checked_big_div_by_number_up(wide(3)), Ok(FixedPoint::new(333_333_333_334)));
    assert!(one_raw.checked_big_div_by_number_up(wide(0)).is_err());
}

#[test]
fn division_by_a_number_beyond_256_bits() {
    let two_to_256 = U512 { l0: 0, l1: 0, l2: 0, l3: 0, l4: 1, l5: 0, l6: 0, l7: 0 };
    let ten = Liquidity::new(u(10));
    assert_eq!(ten.big_div_by_number(two_to_256), Liquidity::new(u(0)));
    assert_eq!(ten.big_div_by_number_up(two_to_256), Liquidity::new(u(1)));
    assert_eq!(ten.checked_big_div_by_number(two_to_256), Ok(Liquidity::new(u(0))));
    // the rounding sum no longer fits in 512 bits
    let max = U512 { l0: u64::MAX, l1: u64::MAX, l2: u64::MAX, l3: u64::MAX, l4: u64::MAX, l5: u64::MAX, l6: u64::MAX, l7: u64::MAX };
    assert!(ten.checked_big_div_by_number_up(max).is_err());
}

#[test]
fn products_kept_as_numbers() {
    let two = Liquidity::new(u(200_000));
    let half = Percentage::from_scale(5, 1);
    assert_eq!(two.big_mul_to_value(half), wide(100_000));
    let three_raw = Liquidity::new(u(3));
    assert_eq!(three_raw.big_mul_to_value(half), wide(1));
    assert_eq!(three_raw.big_mul_to_value_up(half), wide(2));
}

#[test]
fn rescaling_numbers_to_a_type() {
    assert_eq!(Percentage::checked_from_scale_to_value(u(1), 0), Ok(wide(1_000_000_000_000)));
    assert_eq!(Percentage::checked_from_scale_to_value(u(50_000_000_000_000), 13), Ok(wide(5_000_000_000_000)));
    assert!(Percentage::checked_from_scale_to_value(u(1), 60).is_err());
    assert_eq!(Percentage::checked_from_decimal_to_value(Liquidity::new(u(100_000))), Ok(wide(1_000_000_000_000)));
}

#[test]
fn fee_growth_from_and_to_fee() {
    let liquidity = Liquidity::new(u(1_000_000));
    let growth = FeeGrowth::from_fee(&liquidity, &TokenAmount::new(u(6))).unwrap();
    assert_eq!(growth, FeeGrowth::from_scale(6, 1));
    assert_eq!(growth.to_fee(&liquidity), Some(TokenAmount::new(u(6))));
    assert_eq!(FeeGrowth::from_fee(&Liquidity::new(u(0)), &TokenAmount::new(u(6))), None);
}

#[test]
fn fee_round_trip_pays_no_more_than_the_fee() {
    let liquidity = Liquidity::new(u(300_000));
    let growth = FeeGrowth::from_fee(&liquidity, &TokenAmount::new(u(7))).unwrap();
    assert_eq!(growth, FeeGrowth::new(23_333_333_333_333_333_333_333_333_333));
    assert_eq!(growth.to_fee(&liquidity), Some(TokenAmount::new(u(6))));
}

#[test]
fn checked_from_scale_reports_overflow() {
    assert_eq!(Percentage::checked_from_scale(5, 13), Ok(Percentage::new(0)));
    assert_eq!(Percentage::checked_from_scale(55, 13), Ok(Percentage::new(5)));
    assert!(Percentage::checked_from_scale(u128::MAX, 0).is_err());
}

#[test]
fn wide_types_rescale_like_the_others() {
    assert_eq!(TokenAmount::from_scale(u(12345), 2), TokenAmount::new(u(123)));
    assert_eq!(TokenAmount::from_scale_up(u(12345), 2), TokenAmount::new(u(124)));
    assert_eq!(TokenAmount::checked_from_scale(u(12345), 2), Ok(TokenAmount::new(u(123))));
    assert!(TokenAmount::checked_from_scale(u(1), 78).is_err());
    assert_eq!(TokenAmount::checked_from_scale(u(1), 77), Ok(TokenAmount::new(u(0))));
    assert_eq!(Liquidity::from_scale(u(3), 2), Liquidity::new(u(3000)));
    assert_eq!(Liquidity::from_scale_up(u(3), 2), Liquidity::new(u(3000)));
    assert_eq!(Liquidity::from_scale_up(u(1), 6), Liquidity::new(u(1)));
    assert_eq!(Liquidity::from_scale(u(1), 6), Liquidity::new(u(0)));
    assert!(Liquidity::checked_from_scale(U256::max_value(), 0).is_err());
}
