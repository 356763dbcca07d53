//! The arithmetic that every decimal type shares: products and quotients
//! with another decimal or a plain number, rounded down or up, computed
//! exactly in 512 bits and cut back to the type.
use vstd::prelude::*;
use vstd::string::StringExecFns;
use crate::decimal::{FeeGrowth, FixedPoint, Liquidity, Percentage, Price, SecondsPerLiquidity, SqrtPrice, TokenAmount,
    lemma_pow10_mono, lemma_pow10_pos, lemma_pow10_values, mul_div_down, mul_div_up, pow10, rescale_down, u128_pow10};
use crate::uint::{U256, U512, lemma_limbs4_bound, pow128, pow256, pow512};

verus! {

/// A number with a fixed count of decimal places, held as a raw integer.
pub trait Decimal: Sized + Copy {
    /// The raw integer.
    spec fn dec_value(&self) -> nat;

    /// The count of decimal places.
    spec fn dec_scale() -> nat;

    /// The first raw value that does not fit.
    spec fn dec_bound() -> nat;

    fn decimal_scale() -> (r: u8)
        ensures
            r as nat == Self::dec_scale(),
            r <= 28;

    fn to_u256(&self) -> (r: U256)
        ensures
            r.value() == self.dec_value(),
            self.dec_value() < Self::dec_bound(),
            Self::dec_bound() <= pow256();

    fn fits(v: &U256) -> (r: bool)
        ensures
            r == (v.value() < Self::dec_bound());

    fn from_u256(v: &U256) -> (r: Self)
        requires
            v.value() < Self::dec_bound(),
        ensures
            r.dec_value() == v.value();
}

/// `10^k` as a 256-bit number.
fn pow10_u256(k: u8) -> (r: U256)
    requires
        k <= 28,
    ensures
        r.value() == pow10(k as nat),
        r.value() >= 1,
{
    proof {
        lemma_pow10_mono(k as nat, 28);
        lemma_pow10_pos(k as nat);
        lemma_pow10_values();
    }
    U256::from_u128(u128_pow10(k).unwrap())
}

/// `a * b / d`, rounded down.
pub open spec fn mul_down(a: nat, b: nat, d: nat) -> nat {
    a * b / d
}

/// `a * b / d`, rounded up.
pub open spec fn mul_up(a: nat, b: nat, d: nat) -> nat {
    ((a * b + d - 1) / (d as int)) as nat
}

/// Products and quotients of a decimal with another decimal.
pub trait BigOps: Decimal {
    /// `self * rhs`, rounded down; the result must fit.
    fn big_mul<T: Decimal>(self, rhs: T) -> (r: Self)
        requires
            mul_down(self.dec_value(), rhs.dec_value(), pow10(T::dec_scale())) < Self::dec_bound(),
        ensures
            r.dec_value() == mul_down(self.dec_value(), rhs.dec_value(), pow10(T::dec_scale())),
    {
        let one = pow10_u256(T::decimal_scale());
        let lhs = self.to_u256();
        let v = mul_div_down(&lhs, &rhs.to_u256(), &one).unwrap();
        Self::from_u256(&v)
    }

    /// `self * rhs`, rounded up; the result must fit.
    fn big_mul_up<T: Decimal>(self, rhs: T) -> (r: Self)
        requires
            mul_up(self.dec_value(), rhs.dec_value(), pow10(T::dec_scale())) < Self::dec_bound(),
        ensures
            r.dec_value() == mul_up(self.dec_value(), rhs.dec_value(), pow10(T::dec_scale())),
    {
        let one = pow10_u256(T::decimal_scale());
        let lhs = self.to_u256();
        let v = mul_div_up(&lhs, &rhs.to_u256(), &one).unwrap();
        Self::from_u256(&v)
    }

    /// `self / rhs`, rounded down; the divisor must be nonzero and
    /// the result must fit.
    fn big_div<T: Decimal>(self, rhs: T) -> (r: Self)
        requires
            rhs.dec_value() != 0,
            mul_down(self.dec_value(), pow10(T::dec_scale()), rhs.dec_value()) < Self::dec_bound(),
        ensures
            r.dec_value() == mul_down(self.dec_value(), pow10(T::dec_scale()), rhs.dec_value()),
    {
        let one = pow10_u256(T::decimal_scale());
        let lhs = self.to_u256();
        let v = mul_div_down(&lhs, &one, &rhs.to_u256()).unwrap();
        Self::from_u256(&v)
    }

    /// `self / rhs`, rounded down, or an error on a zero divisor or a result
    /// that does not fit.
    fn checked_big_div<T: Decimal>(self, rhs: T) -> (r: Result<Self, String>)
        ensures
            r is Ok <==> rhs.dec_value() != 0
                && mul_down(self.dec_value(), pow10(T::dec_scale()), rhs.dec_value()) < Self::dec_bound(),
            r matches Ok(v) ==> v.dec_value() == mul_down(self.dec_value(), pow10(T::dec_scale()), rhs.dec_value()),
    {
        let one = pow10_u256(T::decimal_scale());
        let lhs = self.to_u256();
        match mul_div_down(&lhs, &one, &rhs.to_u256()) {
            Some(v) => if Self::fits(&v) {
                Ok(Self::from_u256(&v))
            } else {
                Err(String::from_str("decimal: overflow casting the result in checked_big_div()"))
            },
            None => {
                proof { lemma_limbs4_bound(lhs.l0, lhs.l1, lhs.l2, lhs.l3); }
                Err(String::from_str("decimal: overflow in checked_big_div()"))
            },
        }
    }

    /// `self / rhs`, rounded up; the divisor must be nonzero and
    /// the result must fit.
    fn big_div_up<T: Decimal>(self, rhs: T) -> (r: Self)
        requires
            rhs.dec_value() != 0,
            mul_up(self.dec_value(), pow10(T::dec_scale()), rhs.dec_value()) < Self::dec_bound(),
        ensures
            r.dec_value() == mul_up(self.dec_value(), pow10(T::dec_scale()), rhs.dec_value()),
    {
        let one = pow10_u256(T::decimal_scale());
        let lhs = self.to_u256();
        let v = mul_div_up(&lhs, &one, &rhs.to_u256()).unwrap();
        Self::from_u256(&v)
    }
}

/// `a * b / d` rounded down, for a 512-bit divisor `d`: `None` for a zero
/// divisor or a quotient beyond 256 bits.
fn wide_div_down(a: &U256, b: &U256, d: &U512) -> (r: Option<U256>)
    ensures
        r is Some <==> d.value() != 0 && a.value() * b.value() / d.value() < pow256(),
        r matches Some(v) ==> v.value() == a.value() * b.value() / d.value(),
{
    let product = a.full_mul(b);
    match product.checked_div(d) {
        Some(q) => q.checked_to_u256(),
        None => None,
    }
}

/// `a * b / d` rounded up, for a 512-bit divisor `d`: `None` for a zero
/// divisor, for `a * b + d - 1` beyond 512 bits, or for a quotient beyond 256
/// bits.
fn wide_div_up(a: &U256, b: &U256, d: &U512) -> (r: Option<U256>)
    ensures
        r is Some <==> d.value() != 0 && a.value() * b.value() + d.value() - 1 < pow512()
            && mul_up(a.value(), b.value(), d.value()) < pow256(),
        r matches Some(v) ==> v.value() == mul_up(a.value(), b.value(), d.value()),
{
    let product = a.full_mul(b);
    let one = U512::from_u256(U256::from_u128(1));
    let almost = match d.checked_sub(&one) {
        Some(x) => x,
        None => return None,
    };
    let sum = match product.checked_add(&almost) {
        Some(x) => x,
        None => return None,
    };
    match sum.checked_div(d) {
        Some(q) => q.checked_to_u256(),
        None => None,
    }
}

/// Quotients of a decimal by a plain 512-bit number, and products of two
/// decimals kept as a plain 512-bit number.
pub trait ByNumber: Decimal {
    /// `self / rhs` for a plain number `rhs`, rounded down; the divisor
    /// must be nonzero and the result must fit.
    fn big_div_by_number(self, rhs: U512) -> (r: Self)
        requires
            rhs.value() != 0,
            mul_down(self.dec_value(), pow10(Self::dec_scale()), rhs.value()) < Self::dec_bound(),
        ensures
            r.dec_value() == mul_down(self.dec_value(), pow10(Self::dec_scale()), rhs.value()),
    {
        let one = pow10_u256(Self::decimal_scale());
        let lhs = self.to_u256();
        let v = wide_div_down(&lhs, &one, &rhs).unwrap();
        Self::from_u256(&v)
    }

    /// `self / rhs` for a plain number, rounded down, or an error on a zero
    /// divisor or a result that does not fit.
    fn checked_big_div_by_number(self, rhs: U512) -> (r: Result<Self, String>)
        ensures
            r is Ok <==> rhs.value() != 0
                && mul_down(self.dec_value(), pow10(Self::dec_scale()), rhs.value()) < Self::dec_bound(),
            r matches Ok(v) ==> v.dec_value() == mul_down(self.dec_value(), pow10(Self::dec_scale()), rhs.value()),
    {
        let one = pow10_u256(Self::decimal_scale());
        let lhs = self.to_u256();
        match wide_div_down(&lhs, &one, &rhs) {
            Some(v) => if Self::fits(&v) {
                Ok(Self::from_u256(&v))
            } else {
                Err(String::from_str("decimal: overflow casting the result in checked_big_div_by_number()"))
            },
            None => Err(String::from_str("decimal: overflow in checked_big_div_by_number()")),
        }
    }

    /// `self / rhs` for a plain number, rounded up; the divisor must be
    /// nonzero, `self * 10^scale + rhs - 1` must fit in 512 bits and the
    /// result must fit.
    fn big_div_by_number_up(self, rhs: U512) -> (r: Self)
        requires
            rhs.value() != 0,
            self.dec_value() * pow10(Self::dec_scale()) + rhs.value() - 1 < pow512(),
            mul_up(self.dec_value(), pow10(Self::dec_scale()), rhs.value()) < Self::dec_bound(),
        ensures
            r.dec_value() == mul_up(self.dec_value(), pow10(Self::dec_scale()), rhs.value()),
    {
        let one = pow10_u256(Self::decimal_scale());
        let lhs = self.to_u256();
        let v = wide_div_up(&lhs, &one, &rhs).unwrap();
        Self::from_u256(&v)
    }

    /// `self / rhs` for a plain number, rounded up, or an error on a zero
    /// divisor, a sum `self * 10^scale + rhs - 1` beyond 512 bits or a result
    /// that does not fit.
    fn checked_big_div_by_number_up(self, rhs: U512) -> (r: Result<Self, String>)
        ensures
            r is Ok <==> rhs.value() != 0
                && self.dec_value() * pow10(Self::dec_scale()) + rhs.value() - 1 < pow512()
                && mul_up(self.dec_value(), pow10(Self::dec_scale()), rhs.value()) < Self::dec_bound(),
            r matches Ok(v) ==> v.dec_value() == mul_up(self.dec_value(), pow10(Self::dec_scale()), rhs.value()),
    {
        let one = pow10_u256(Self::decimal_scale());
        let lhs = self.to_u256();
        match wide_div_up(&lhs, &one, &rhs) {
            Some(v) => if Self::fits(&v) {
                Ok(Self::from_u256(&v))
            } else {
                Err(String::from_str("decimal: overflow casting the result in checked_big_div_by_number_up()"))
            },
            None => Err(String::from_str("decimal: overflow in checked_big_div_by_number_up()")),
        }
    }

    /// `self * rhs`, rounded down, as a plain number.
    fn big_mul_to_value<T: Decimal>(self, rhs: T) -> (r: U512)
        ensures
            r.value() == mul_down(self.dec_value(), rhs.dec_value(), pow10(T::dec_scale())),
    {
        let one = pow10_u256(T::decimal_scale());
        let product = self.to_u256().full_mul(&rhs.to_u256());
        product.checked_div(&U512::from_u256(one)).unwrap()
    }

    /// `self * rhs`, rounded up, as a plain number.
    fn big_mul_to_value_up<T: Decimal>(self, rhs: T) -> (r: U512)
        ensures
            r.value() == mul_up(self.dec_value(), rhs.dec_value(), pow10(T::dec_scale())),
    {
        let one = pow10_u256(T::decimal_scale());
        let a = self.to_u256();
        let b = rhs.to_u256();
        let product = a.full_mul(&b);
        proof {
            lemma_limbs4_bound(a.l0, a.l1, a.l2, a.l3);
            lemma_limbs4_bound(b.l0, b.l1, b.l2, b.l3);
            lemma_limbs4_bound(one.l0, one.l1, one.l2, one.l3);
            assert(a.value() * b.value() <= (pow256() - 1) * (pow256() - 1)) by (nonlinear_arith)
                requires a.value() < pow256(), b.value() < pow256();
            assert((pow256() - 1) * (pow256() - 1) + pow256() < pow512());
        }
        let almost = U512::from_u256(one.sub(&U256::from_u128(1)));
        let sum = product.checked_add(&almost).unwrap();
        sum.checked_div(&U512::from_u256(one)).unwrap()
    }
}

/// `integer` read with `scale` decimal places, written with `target` places,
/// rounded down.
pub open spec fn rescale_value(integer: nat, target: nat, scale: nat) -> nat {
    if target > scale {
        integer * pow10((target - scale) as nat)
    } else {
        integer / pow10((scale - target) as nat)
    }
}

/// Rescaling of plain numbers to a decimal type's count of places.
pub trait FactoriesToValue: Decimal {
    /// `val`, read with `scale` decimal places, as a plain number with this
    /// type's count of places (rounded down); an error where the power of ten
    /// that divides does not fit in 128 bits.
    fn checked_from_scale_to_value(val: U256, scale: u8) -> (r: Result<U512, String>)
        ensures
            r is Ok <==> (Self::dec_scale() > scale || pow10((scale - Self::dec_scale()) as nat) <= u128::MAX),
            r matches Ok(v) ==> v.value() == rescale_value(val.value(), Self::dec_scale(), scale as nat),
    {
        let own = Self::decimal_scale();
        let base = U512::from_u256(val);
        if own > scale {
            let multiplier = pow10_u256(own - scale);
            proof {
                lemma_limbs4_bound(val.l0, val.l1, val.l2, val.l3);
                lemma_pow10_mono((own - scale) as nat, 28);
                lemma_pow10_values();
                assert(val.value() * multiplier.value() < pow512()) by (nonlinear_arith)
                    requires val.value() < pow256(), multiplier.value() <= pow10(28),
                        pow10(28) < pow256(), pow256() * pow256() == pow512();
            }
            let product = val.full_mul(&multiplier);
            Ok(product)
        } else {
            match u128_pow10(scale - own) {
                Some(denominator) => {
                    proof { lemma_pow10_pos((scale - own) as nat); }
                    Ok(base.checked_div(&U512::from_u256(U256::from_u128(denominator))).unwrap())
                },
                None => Err(String::from_str("checked_from_scale_to_value: denominator overflow")),
            }
        }
    }

    /// Another decimal's value as a plain number with this type's count of
    /// places (rounded down); an error as for `checked_from_scale_to_value`.
    fn checked_from_decimal_to_value<T: Decimal>(other: T) -> (r: Result<U512, String>)
        ensures
            r is Ok <==> (Self::dec_scale() > T::dec_scale() || pow10((T::dec_scale() - Self::dec_scale()) as nat) <= u128::MAX),
            r matches Ok(v) ==> v.value() == rescale_value(other.dec_value(), Self::dec_scale(), T::dec_scale()),
    {
        Self::checked_from_scale_to_value(other.to_u256(), T::decimal_scale())
    }
}

/// Each decimal type has its own fixed count of decimal places (percentages
/// and fixed points 12, square roots of prices, prices and seconds per
/// liquidity 24, fee growth 28, token amounts 0, liquidity 5), and the shared
/// arithmetic reads it with that same count.
pub proof fn law_decimal_places()
    ensures
        <Percentage as Decimal>::dec_scale() == 12 && Percentage::spec_scale() == 12,
        <SqrtPrice as Decimal>::dec_scale() == 24 && SqrtPrice::spec_scale() == 24,
        <FeeGrowth as Decimal>::dec_scale() == 28 && FeeGrowth::spec_scale() == 28,
        <SecondsPerLiquidity as Decimal>::dec_scale() == 24 && SecondsPerLiquidity::spec_scale() == 24,
        <FixedPoint as Decimal>::dec_scale() == 12 && FixedPoint::spec_scale() == 12,
        <Price as Decimal>::dec_scale() == 24 && Price::spec_scale() == 24,
        <TokenAmount as Decimal>::dec_scale() == 0 && TokenAmount::spec_scale() == 0,
        <Liquidity as Decimal>::dec_scale() == 5 && Liquidity::spec_scale() == 5,
{
}

/// Multiplying by a type's `one()` keeps a value: the shared product divides
/// by exactly the raw value that `one()` holds.
pub proof fn law_big_mul_by_one_keeps_value()
    ensures
        forall|x: nat| #[trigger] mul_down(x, pow10(Percentage::spec_scale()), pow10(<Percentage as Decimal>::dec_scale())) == x,
        forall|x: nat| #[trigger] mul_down(x, pow10(SqrtPrice::spec_scale()), pow10(<SqrtPrice as Decimal>::dec_scale())) == x,
        forall|x: nat| #[trigger] mul_down(x, pow10(FeeGrowth::spec_scale()), pow10(<FeeGrowth as Decimal>::dec_scale())) == x,
        forall|x: nat| #[trigger] mul_down(x, pow10(SecondsPerLiquidity::spec_scale()), pow10(<SecondsPerLiquidity as Decimal>::dec_scale())) == x,
        forall|x: nat| #[trigger] mul_down(x, pow10(FixedPoint::spec_scale()), pow10(<FixedPoint as Decimal>::dec_scale())) == x,
        forall|x: nat| #[trigger] mul_down(x, pow10(Price::spec_scale()), pow10(<Price as Decimal>::dec_scale())) == x,
        forall|x: nat| #[trigger] mul_down(x, pow10(TokenAmount::spec_scale()), pow10(<TokenAmount as Decimal>::dec_scale())) == x,
        forall|x: nat| #[trigger] mul_down(x, pow10(Liquidity::spec_scale()), pow10(<Liquidity as Decimal>::dec_scale())) == x,
{
    assert forall|x: nat| #[trigger] mul_down(x, pow10(Percentage::spec_scale()), pow10(<Percentage as Decimal>::dec_scale())) == x by {
        lemma_pow10_pos(12);
        vstd::arithmetic::div_mod::lemma_div_by_multiple(x as int, pow10(12) as int);
    }
    assert forall|x: nat| #[trigger] mul_down(x, pow10(SqrtPrice::spec_scale()), pow10(<SqrtPrice as Decimal>::dec_scale())) == x by {
        lemma_pow10_pos(24);
        vstd::arithmetic::div_mod::lemma_div_by_multiple(x as int, pow10(24) as int);
    }
    assert forall|x: nat| #[trigger] mul_down(x, pow10(FeeGrowth::spec_scale()), pow10(<FeeGrowth as Decimal>::dec_scale())) == x by {
        lemma_pow10_pos(28);
        vstd::arithmetic::div_mod::lemma_div_by_multiple(x as int, pow10(28) as int);
    }
    assert forall|x: nat| #[trigger] mul_down(x, pow10(SecondsPerLiquidity::spec_scale()), pow10(<SecondsPerLiquidity as Decimal>::dec_scale())) == x by {
        lemma_pow10_pos(24);
        vstd::arithmetic::div_mod::lemma_div_by_multiple(x as int, pow10(24) as int);
    }
    assert forall|x: nat| #[trigger] mul_down(x, pow10(FixedPoint::spec_scale()), pow10(<FixedPoint as Decimal>::dec_scale())) == x by {
        lemma_pow10_pos(12);
        vstd::arithmetic::div_mod::lemma_div_by_multiple(x as int, pow10(12) as int);
    }
    assert forall|x: nat| #[trigger] mul_down(x, pow10(Price::spec_scale()), pow10(<Price as Decimal>::dec_scale())) == x by {
        lemma_pow10_pos(24);
        vstd::arithmetic::div_mod::lemma_div_by_multiple(x as int, pow10(24) as int);
    }
    assert forall|x: nat| #[trigger] mul_down(x, pow10(TokenAmount::spec_scale()), pow10(<TokenAmount as Decimal>::dec_scale())) == x by {
        lemma_pow10_pos(0);
        vstd::arithmetic::div_mod::lemma_div_by_multiple(x as int, pow10(0) as int);
    }
    assert forall|x: nat| #[trigger] mul_down(x, pow10(Liquidity::spec_scale()), pow10(<Liquidity as Decimal>::dec_scale())) == x by {
        lemma_pow10_pos(5);
        vstd::arithmetic::div_mod::lemma_div_by_multiple(x as int, pow10(5) as int);
    }
}

/// `from_integer(n)` is `from_scale(n, 0)`: an integer read with no decimal
/// places, written with the type's own.
pub proof fn law_from_integer_is_from_scale_zero()
    ensures
        forall|n: nat| #[trigger] rescale_down(n, 12, 0) == n * pow10(Percentage::spec_scale()),
        forall|n: nat| #[trigger] rescale_down(n, 24, 0) == n * pow10(SqrtPrice::spec_scale()),
        forall|n: nat| #[trigger] rescale_down(n, 28, 0) == n * pow10(FeeGrowth::spec_scale()),
        forall|n: nat| #[trigger] rescale_down(n, 24, 0) == n * pow10(SecondsPerLiquidity::spec_scale()),
        forall|n: nat| #[trigger] rescale_down(n, 12, 0) == n * pow10(FixedPoint::spec_scale()),
        forall|n: nat| #[trigger] rescale_down(n, 24, 0) == n * pow10(Price::spec_scale()),
        forall|n: nat| #[trigger] rescale_down(n, 0, 0) == n * pow10(TokenAmount::spec_scale()),
        forall|n: nat| #[trigger] rescale_down(n, 5, 0) == n * pow10(Liquidity::spec_scale()),
{
    assert forall|n: nat| #[trigger] rescale_down(n, 12, 0) == n * pow10(Percentage::spec_scale()) by {
        reveal_with_fuel(pow10, 1);
    }
    assert forall|n: nat| #[trigger] rescale_down(n, 24, 0) == n * pow10(SqrtPrice::spec_scale()) by {
        reveal_with_fuel(pow10, 1);
    }
    assert forall|n: nat| #[trigger] rescale_down(n, 28, 0) == n * pow10(FeeGrowth::spec_scale()) by {
        reveal_with_fuel(pow10, 1);
    }
    assert forall|n: nat| #[trigger] rescale_down(n, 24, 0) == n * pow10(SecondsPerLiquidity::spec_scale()) by {
        reveal_with_fuel(pow10, 1);
    }
    assert forall|n: nat| #[trigger] rescale_down(n, 12, 0) == n * pow10(FixedPoint::spec_scale()) by {
        reveal_with_fuel(pow10, 1);
    }
    assert forall|n: nat| #[trigger] rescale_down(n, 24, 0) == n * pow10(Price::spec_scale()) by {
        reveal_with_fuel(pow10, 1);
    }
    assert forall|n: nat| #[trigger] rescale_down(n, 0, 0) == n * pow10(TokenAmount::spec_scale()) by {
        assert(pow10(0) == 1) by { reveal_with_fuel(pow10, 1); }
        assert(((0 - 0) as nat) == 0nat);
        assert(rescale_down(n, 0, 0) == n / pow10(0));
        assert(n / 1 == n) by (nonlinear_arith);
        assert(n * pow10(0) == n) by (nonlinear_arith) requires pow10(0) == 1;
        assert(TokenAmount::spec_scale() == 0);
    }
    assert forall|n: nat| #[trigger] rescale_down(n, 5, 0) == n * pow10(Liquidity::spec_scale()) by {
        reveal_with_fuel(pow10, 1);
    }
}

impl Decimal for Percentage {
    open spec fn dec_value(&self) -> nat { self.v as nat }

    open spec fn dec_scale() -> nat { 12 }

    open spec fn dec_bound() -> nat { pow128() }

    fn decimal_scale() -> (r: u8) {
        12
    }

    fn to_u256(&self) -> (r: U256) {
        U256::from_u128(self.v)
    }

    fn fits(v: &U256) -> (r: bool) {
        v.checked_to_u128().is_some()
    }

    fn from_u256(v: &U256) -> (r: Self) {
        Percentage { v: v.checked_to_u128().unwrap() }
    }
}

impl BigOps for Percentage {}

impl ByNumber for Percentage {}

impl FactoriesToValue for Percentage {}

impl Decimal for SqrtPrice {
    open spec fn dec_value(&self) -> nat { self.v as nat }

    open spec fn dec_scale() -> nat { 24 }

    open spec fn dec_bound() -> nat { pow128() }

    fn decimal_scale() -> (r: u8) {
        24
    }

    fn to_u256(&self) -> (r: U256) {
        U256::from_u128(self.v)
    }

    fn fits(v: &U256) -> (r: bool) {
        v.checked_to_u128().is_some()
    }

    fn from_u256(v: &U256) -> (r: Self) {
        SqrtPrice { v: v.checked_to_u128().unwrap() }
    }
}

impl BigOps for SqrtPrice {}

impl ByNumber for SqrtPrice {}

impl FactoriesToValue for SqrtPrice {}

impl Decimal for FeeGrowth {
    open spec fn dec_value(&self) -> nat { self.v as nat }

    open spec fn dec_scale() -> nat { 28 }

    open spec fn dec_bound() -> nat { pow128() }

    fn decimal_scale() -> (r: u8) {
        28
    }

    fn to_u256(&self) -> (r: U256) {
        U256::from_u128(self.v)
    }

    fn fits(v: &U256) -> (r: bool) {
        v.checked_to_u128().is_some()
    }

    fn from_u256(v: &U256) -> (r: Self) {
        FeeGrowth { v: v.checked_to_u128().unwrap() }
    }
}

impl BigOps for FeeGrowth {}

impl ByNumber for FeeGrowth {}

impl FactoriesToValue for FeeGrowth {}

impl Decimal for SecondsPerLiquidity {
    open spec fn dec_value(&self) -> nat { self.v as nat }

    open spec fn dec_scale() -> nat { 24 }

    open spec fn dec_bound() -> nat { pow128() }

    fn decimal_scale() -> (r: u8) {
        24
    }

    fn to_u256(&self) -> (r: U256) {
        U256::from_u128(self.v)
    }

    fn fits(v: &U256) -> (r: bool) {
        v.checked_to_u128().is_some()
    }

    fn from_u256(v: &U256) -> (r: Self) {
        SecondsPerLiquidity { v: v.checked_to_u128().unwrap() }
    }
}

impl BigOps for SecondsPerLiquidity {}

impl ByNumber for SecondsPerLiquidity {}

impl FactoriesToValue for SecondsPerLiquidity {}

impl Decimal for FixedPoint {
    open spec fn dec_value(&self) -> nat { self.v as nat }

    open spec fn dec_scale() -> nat { 12 }

    open spec fn dec_bound() -> nat { pow128() }

    fn decimal_scale() -> (r: u8) {
        12
    }

    fn to_u256(&self) -> (r: U256) {
        U256::from_u128(self.v)
    }

    fn fits(v: &U256) -> (r: bool) {
        v.checked_to_u128().is_some()
    }

    fn from_u256(v: &U256) -> (r: Self) {
        FixedPoint { v: v.checked_to_u128().unwrap() }
    }
}

impl BigOps for FixedPoint {}

impl ByNumber for FixedPoint {}

impl FactoriesToValue for FixedPoint {}

impl Decimal for Price {
    open spec fn dec_value(&self) -> nat { self.v as nat }

    open spec fn dec_scale() -> nat { 24 }

    open spec fn dec_bound() -> nat { pow128() }

    fn decimal_scale() -> (r: u8) {
        24
    }

    fn to_u256(&self) -> (r: U256) {
        U256::from_u128(self.v)
    }

    fn fits(v: &U256) -> (r: bool) {
        v.checked_to_u128().is_some()
    }

    fn from_u256(v: &U256) -> (r: Self) {
        Price { v: v.checked_to_u128().unwrap() }
    }
}

impl BigOps for Price {}

impl ByNumber for Price {}

impl FactoriesToValue for Price {}

impl Decimal for TokenAmount {
    open spec fn dec_value(&self) -> nat { self.v.value() }

    open spec fn dec_scale() -> nat { 0 }

    open spec fn dec_bound() -> nat { pow256() }

    fn decimal_scale() -> (r: u8) {
        0
    }

    fn to_u256(&self) -> (r: U256) {
        proof { lemma_limbs4_bound(self.v.l0, self.v.l1, self.v.l2, self.v.l3); }
        self.v
    }

    fn fits(v: &U256) -> (r: bool) {
        proof { lemma_limbs4_bound(v.l0, v.l1, v.l2, v.l3); }
        true
    }

    fn from_u256(v: &U256) -> (r: Self) {
        TokenAmount { v: *v }
    }
}

impl BigOps for TokenAmount {}

impl ByNumber for TokenAmount {}

impl FactoriesToValue for TokenAmount {}

impl Decimal for Liquidity {
    open spec fn dec_value(&self) -> nat { self.v.value() }

    open spec fn dec_scale() -> nat { 5 }

    open spec fn dec_bound() -> nat { pow256() }

    fn decimal_scale() -> (r: u8) {
        5
    }

    fn to_u256(&self) -> (r: U256) {
        proof { lemma_limbs4_bound(self.v.l0, self.v.l1, self.v.l2, self.v.l3); }
        self.v
    }

    fn fits(v: &U256) -> (r: bool) {
        proof { lemma_limbs4_bound(v.l0, v.l1, v.l2, v.l3); }
        true
    }

    fn from_u256(v: &U256) -> (r: Self) {
        Liquidity { v: *v }
    }
}

impl BigOps for Liquidity {}

impl ByNumber for Liquidity {}

impl FactoriesToValue for Liquidity {}

} // verus!
