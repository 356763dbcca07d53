//! Fixed-point decimal types: a raw unsigned integer read with a fixed
//! number of decimal places. `raw / 10^scale` is the number it stands for.
use vstd::prelude::*;
use vstd::string::StringExecFns;
use crate::uint::{U256, U512, pow128, pow256};

verus! {

pub open spec fn pow10(n: nat) -> nat
    decreases n,
{
    if n == 0 { 1 } else { 10 * pow10((n - 1) as nat) }
}

pub proof fn lemma_pow10_pos(n: nat)
    ensures
        pow10(n) >= 1,
    decreases n,
{
    if n > 0 { lemma_pow10_pos((n - 1) as nat); }
}

pub proof fn lemma_pow10_mono(a: nat, b: nat)
    requires
        a <= b,
    ensures
        pow10(a) <= pow10(b),
    decreases b,
{
    if a < b {
        lemma_pow10_mono(a, (b - 1) as nat);
        lemma_pow10_pos((b - 1) as nat);
    }
}

pub proof fn lemma_pow10_add(a: nat, b: nat)
    ensures
        pow10(a + b) == pow10(a) * pow10(b),
    decreases b,
{
    if b > 0 {
        lemma_pow10_add(a, (b - 1) as nat);
        let p = pow10(a);
        let q = pow10((b - 1) as nat);
        assert(pow10(a + b) == 10 * pow10((a + b - 1) as nat));
        assert(((a + b - 1) as nat) == a + ((b - 1) as nat));
        assert(pow10(b) == 10 * q);
        assert(10 * (p * q) == p * (10 * q)) by (nonlinear_arith);
    } else {
        assert(pow10(b) == 1);
        assert(a + b == a);
    }
}

/// The powers of ten that the decimal types of this library use.
pub proof fn lemma_pow10_values()
    ensures
        pow10(0) == 1,
        pow10(5) == 100000,
        pow10(12) == 1_000_000_000_000,
        pow10(24) == 1_000_000_000_000_000_000_000_000,
        pow10(28) == 10_000_000_000_000_000_000_000_000_000,
        pow10(33) == 1_000_000_000_000_000_000_000_000_000_000_000,
        pow10(38) == 100_000_000_000_000_000_000_000_000_000_000_000_000,
        pow10(39) == 1_000_000_000_000_000_000_000_000_000_000_000_000_000,
{
    reveal_with_fuel(pow10, 40);
}

/// `10^k` as a `u128`, or `None` where it does not fit.
pub fn u128_pow10(k: u8) -> (r: Option<u128>)
    ensures
        r is Some <==> pow10(k as nat) <= u128::MAX,
        r matches Some(v) ==> v == pow10(k as nat),
{
    let mut acc: u128 = 1;
    let mut i: u8 = 0;
    while i < k
        invariant
            i <= k,
            acc == pow10(i as nat),
        decreases k - i,
    {
        match acc.checked_mul(10) {
            Some(next) => {
                acc = next;
                i = i + 1;
            }
            None => {
                proof { lemma_pow10_mono((i + 1) as nat, k as nat); }
                return None;
            }
        }
    }
    Some(acc)
}

/// Whether rescaling `integer` from `scale` to `target` decimal places
/// stays within 128 bits.
pub open spec fn from_scale_defined(integer: nat, target: nat, scale: nat) -> bool {
    if target > scale {
        pow10((target - scale) as nat) <= u128::MAX
            && integer * pow10((target - scale) as nat) <= u128::MAX
    } else {
        pow10((scale - target) as nat) <= u128::MAX
    }
}

/// `integer` read with `scale` decimal places, written with `target` places, rounded down.
pub open spec fn rescale_down(integer: nat, target: nat, scale: nat) -> nat {
    if target > scale {
        integer * pow10((target - scale) as nat)
    } else {
        integer / pow10((scale - target) as nat)
    }
}

pub open spec fn from_scale_up_defined(integer: nat, target: nat, scale: nat) -> bool {
    if target > scale {
        from_scale_defined(integer, target, scale)
    } else {
        pow10((scale - target) as nat) <= u128::MAX
            && integer + pow10((scale - target) as nat) - 1 <= u128::MAX
    }
}

/// `integer` read with `scale` decimal places, written with `target` places, rounded up.
pub open spec fn rescale_up(integer: nat, target: nat, scale: nat) -> nat {
    if target > scale {
        integer * pow10((target - scale) as nat)
    } else {
        (integer + pow10((scale - target) as nat) - 1) as nat / pow10((scale - target) as nat)
    }
}

/// Rescales a raw 128-bit value; `up` selects rounding up.
pub fn u128_from_scale(integer: u128, target: u8, scale: u8, up: bool) -> (r: u128)
    requires
        up ==> from_scale_up_defined(integer as nat, target as nat, scale as nat),
        !up ==> from_scale_defined(integer as nat, target as nat, scale as nat),
    ensures
        up ==> r == rescale_up(integer as nat, target as nat, scale as nat),
        !up ==> r == rescale_down(integer as nat, target as nat, scale as nat),
{
    if target > scale {
        let multiplier = u128_pow10(target - scale).unwrap();
        integer.checked_mul(multiplier).unwrap()
    } else {
        let denominator = u128_pow10(scale - target).unwrap();
        proof { lemma_pow10_pos((scale - target) as nat); }
        if up {
            integer.checked_add(denominator.checked_sub(1).unwrap()).unwrap().checked_div(denominator).unwrap()
        } else {
            integer.checked_div(denominator).unwrap()
        }
    }
}

/// Rescales a raw 128-bit value rounding down, or `None` where it does not fit.
pub fn u128_checked_from_scale(integer: u128, target: u8, scale: u8) -> (r: Option<u128>)
    ensures
        r is Some <==> from_scale_defined(integer as nat, target as nat, scale as nat),
        r matches Some(v) ==> v == rescale_down(integer as nat, target as nat, scale as nat),
{
    if target > scale {
        match u128_pow10(target - scale) {
            Some(multiplier) => integer.checked_mul(multiplier),
            None => None,
        }
    } else {
        match u128_pow10(scale - target) {
            Some(denominator) => {
                proof { lemma_pow10_pos((scale - target) as nat); }
                integer.checked_div(denominator)
            }
            None => None,
        }
    }
}


/// Whether rescaling a 256-bit `integer` from `scale` to `target` decimal
/// places stays within 256 bits, the power of ten included.
pub open spec fn from_scale_defined_256(integer: nat, target: nat, scale: nat) -> bool {
    if target > scale {
        pow10((target - scale) as nat) < pow256() && integer * pow10((target - scale) as nat) < pow256()
    } else {
        pow10((scale - target) as nat) < pow256()
    }
}

/// Whether rescaling rounding up stays within 256 bits, the rounding sum
/// included.
pub open spec fn from_scale_up_defined_256(integer: nat, target: nat, scale: nat) -> bool {
    if target > scale {
        pow10((target - scale) as nat) < pow256() && integer * pow10((target - scale) as nat) < pow256()
    } else {
        pow10((scale - target) as nat) < pow256()
            && integer + pow10((scale - target) as nat) - 1 < pow256()
    }
}

/// `10^k` as a 256-bit number, or `None` where it does not fit.
pub fn u256_pow10(k: u8) -> (r: Option<U256>)
    ensures
        r is Some <==> pow10(k as nat) < pow256(),
        r matches Some(v) ==> v.value() == pow10(k as nat),
{
    let ten = U256::from_u128(10);
    let mut acc = U256::from_u128(1);
    let mut i: u8 = 0;
    while i < k
        invariant
            i <= k,
            acc.value() == pow10(i as nat),
            ten.value() == 10,
        decreases k - i,
    {
        match acc.checked_mul(&ten) {
            Some(next) => {
                acc = next;
                i = i + 1;
            }
            None => {
                proof { lemma_pow10_mono((i + 1) as nat, k as nat); }
                return None;
            }
        }
    }
    proof { crate::uint::lemma_limbs4_bound(acc.l0, acc.l1, acc.l2, acc.l3); }
    Some(acc)
}

/// `a / d` rounded down, for a nonzero `d`.
fn u256_div(a: &U256, d: &U256) -> (r: U256)
    requires
        d.value() != 0,
    ensures
        r.value() == a.value() / d.value(),
{
    proof {
        crate::uint::lemma_limbs4_bound(a.l0, a.l1, a.l2, a.l3);
        vstd::arithmetic::div_mod::lemma_div_is_ordered_by_denominator(a.value() as int, 1, d.value() as int);
        vstd::arithmetic::div_mod::lemma_div_pos_is_pos(a.value() as int, d.value() as int);
    }
    let q = U512::from_u256(*a).checked_div(&U512::from_u256(*d)).unwrap();
    q.checked_to_u256().unwrap()
}

/// Rescales a 256-bit value; `up` selects rounding up.
pub fn u256_from_scale(integer: U256, target: u8, scale: u8, up: bool) -> (r: U256)
    requires
        up ==> from_scale_up_defined_256(integer.value(), target as nat, scale as nat),
        !up ==> from_scale_defined_256(integer.value(), target as nat, scale as nat),
    ensures
        up ==> r.value() == rescale_up(integer.value(), target as nat, scale as nat),
        !up ==> r.value() == rescale_down(integer.value(), target as nat, scale as nat),
{
    if target > scale {
        proof { lemma_pow10_pos((target - scale) as nat); }
        let multiplier = u256_pow10(target - scale).unwrap();
        integer.checked_mul(&multiplier).unwrap()
    } else {
        proof { lemma_pow10_pos((scale - target) as nat); }
        let denominator = u256_pow10(scale - target).unwrap();
        if up {
            let sum = integer.checked_add(&denominator.checked_sub(&U256::from_u128(1)).unwrap()).unwrap();
            u256_div(&sum, &denominator)
        } else {
            u256_div(&integer, &denominator)
        }
    }
}

/// Rescales a 256-bit value rounding down, or `None` where the power of ten
/// or the product does not fit.
pub fn u256_checked_from_scale(integer: U256, target: u8, scale: u8) -> (r: Option<U256>)
    ensures
        r is Some <==> from_scale_defined_256(integer.value(), target as nat, scale as nat),
        r matches Some(v) ==> v.value() == rescale_down(integer.value(), target as nat, scale as nat),
{
    if target > scale {
        match u256_pow10(target - scale) {
            Some(multiplier) => integer.checked_mul(&multiplier),
            None => None,
        }
    } else {
        match u256_pow10(scale - target) {
            Some(denominator) => {
                proof { lemma_pow10_pos((scale - target) as nat); }
                Some(u256_div(&integer, &denominator))
            }
            None => None,
        }
    }
}

/// A fraction with 12 decimal places (1.0 is `10^12`).
#[derive(Clone, Copy, Debug, PartialEq, Eq, Structural)]
pub struct Percentage {
    pub v: u128,
}

impl Percentage {
    pub open spec fn spec_scale() -> nat { 12 }

    pub fn new(v: u128) -> (r: Self)
        ensures
            r.v == v,
    {
        Percentage { v }
    }

    pub fn get(&self) -> (r: u128)
        ensures
            r == self.v,
    {
        self.v
    }

    pub fn scale() -> (r: u8)
        ensures
            r == Self::spec_scale(),
    {
        12
    }

    /// The number 1, that is `10^scale` in raw form.
    pub fn one() -> (r: Self)
        ensures
            r.v == pow10(Self::spec_scale()),
    {
        proof { lemma_pow10_values(); }
        Percentage { v: 1000000000000u128 }
    }

    /// The number `integer`, which must fit.
    pub fn from_integer(integer: u128) -> (r: Self)
        requires
            integer * pow10(Self::spec_scale()) <= u128::MAX,
        ensures
            r.v == integer * pow10(Self::spec_scale()),
    {
        proof { lemma_pow10_values(); }
        Percentage { v: integer * 1000000000000u128 }
    }

    /// Rescales `integer`, given with `scale` decimal places, rounding down.
    pub fn from_scale(integer: u128, scale: u8) -> (r: Self)
        requires
            from_scale_defined(integer as nat, 12, scale as nat),
        ensures
            r.v == rescale_down(integer as nat, 12, scale as nat),
    {
        Percentage { v: u128_from_scale(integer, 12, scale, false) }
    }

    /// Rescales `integer`, given with `scale` decimal places, rounding up.
    pub fn from_scale_up(integer: u128, scale: u8) -> (r: Self)
        requires
            from_scale_up_defined(integer as nat, 12, scale as nat),
        ensures
            r.v == rescale_up(integer as nat, 12, scale as nat),
    {
        Percentage { v: u128_from_scale(integer, 12, scale, true) }
    }

    /// Rescales `integer` rounding down, or an error where the result does not fit.
    pub fn checked_from_scale(integer: u128, scale: u8) -> (r: Result<Self, String>)
        ensures
            r is Ok <==> from_scale_defined(integer as nat, 12, scale as nat),
            r matches Ok(d) ==> d.v == rescale_down(integer as nat, 12, scale as nat),
    {
        match u128_checked_from_scale(integer, 12, scale) {
            Some(v) => Ok(Percentage { v }),
            None => Err(String::from_str("checked_from_scale: the result does not fit")),
        }
    }

    pub fn max_instance() -> (r: Self)
        ensures
            r.v == u128::MAX,
    {
        Percentage { v: u128::MAX }
    }

    pub fn is_zero(&self) -> (r: bool)
        ensures
            r == (self.v == 0),
    {
        self.v == 0
    }

    pub fn checked_add(&self, other: &Self) -> (r: Option<Self>)
        ensures
            r is Some <==> self.v + other.v <= u128::MAX,
            r matches Some(d) ==> d.v == self.v + other.v,
    {
        match self.v.checked_add(other.v) {
            Some(v) => Some(Percentage { v }),
            None => None,
        }
    }

    pub fn checked_sub(&self, other: &Self) -> (r: Option<Self>)
        ensures
            r is Some <==> self.v >= other.v,
            r matches Some(d) ==> d.v == self.v - other.v,
    {
        match self.v.checked_sub(other.v) {
            Some(v) => Some(Percentage { v }),
            None => None,
        }
    }
}

/// The square root of a price, with 24 decimal places.
#[derive(Clone, Copy, Debug, PartialEq, Eq, Structural)]
pub struct SqrtPrice {
    pub v: u128,
}

impl SqrtPrice {
    pub open spec fn spec_scale() -> nat { 24 }

    pub fn new(v: u128) -> (r: Self)
        ensures
            r.v == v,
    {
        SqrtPrice { v }
    }

    pub fn get(&self) -> (r: u128)
        ensures
            r == self.v,
    {
        self.v
    }

    pub fn scale() -> (r: u8)
        ensures
            r == Self::spec_scale(),
    {
        24
    }

    /// The number 1, that is `10^scale` in raw form.
    pub fn one() -> (r: Self)
        ensures
            r.v == pow10(Self::spec_scale()),
    {
        proof { lemma_pow10_values(); }
        SqrtPrice { v: 1000000000000000000000000u128 }
    }

    /// The number `integer`, which must fit.
    pub fn from_integer(integer: u128) -> (r: Self)
        requires
            integer * pow10(Self::spec_scale()) <= u128::MAX,
        ensures
            r.v == integer * pow10(Self::spec_scale()),
    {
        proof { lemma_pow10_values(); }
        SqrtPrice { v: integer * 1000000000000000000000000u128 }
    }

    /// Rescales `integer`, given with `scale` decimal places, rounding down.
    pub fn from_scale(integer: u128, scale: u8) -> (r: Self)
        requires
            from_scale_defined(integer as nat, 24, scale as nat),
        ensures
            r.v == rescale_down(integer as nat, 24, scale as nat),
    {
        SqrtPrice { v: u128_from_scale(integer, 24, scale, false) }
    }

    /// Rescales `integer`, given with `scale` decimal places, rounding up.
    pub fn from_scale_up(integer: u128, scale: u8) -> (r: Self)
        requires
            from_scale_up_defined(integer as nat, 24, scale as nat),
        ensures
            r.v == rescale_up(integer as nat, 24, scale as nat),
    {
        SqrtPrice { v: u128_from_scale(integer, 24, scale, true) }
    }

    /// Rescales `integer` rounding down, or an error where the result does not fit.
    pub fn checked_from_scale(integer: u128, scale: u8) -> (r: Result<Self, String>)
        ensures
            r is Ok <==> from_scale_defined(integer as nat, 24, scale as nat),
            r matches Ok(d) ==> d.v == rescale_down(integer as nat, 24, scale as nat),
    {
        match u128_checked_from_scale(integer, 24, scale) {
            Some(v) => Ok(SqrtPrice { v }),
            None => Err(String::from_str("checked_from_scale: the result does not fit")),
        }
    }

    pub fn max_instance() -> (r: Self)
        ensures
            r.v == u128::MAX,
    {
        SqrtPrice { v: u128::MAX }
    }

    pub fn is_zero(&self) -> (r: bool)
        ensures
            r == (self.v == 0),
    {
        self.v == 0
    }

    pub fn checked_add(&self, other: &Self) -> (r: Option<Self>)
        ensures
            r is Some <==> self.v + other.v <= u128::MAX,
            r matches Some(d) ==> d.v == self.v + other.v,
    {
        match self.v.checked_add(other.v) {
            Some(v) => Some(SqrtPrice { v }),
            None => None,
        }
    }

    pub fn checked_sub(&self, other: &Self) -> (r: Option<Self>)
        ensures
            r is Some <==> self.v >= other.v,
            r matches Some(d) ==> d.v == self.v - other.v,
    {
        match self.v.checked_sub(other.v) {
            Some(v) => Some(SqrtPrice { v }),
            None => None,
        }
    }
}

/// Fee collected per unit of liquidity, with 28 decimal places; it may wrap around.
#[derive(Clone, Copy, Debug, PartialEq, Eq, Structural)]
pub struct FeeGrowth {
    pub v: u128,
}

impl FeeGrowth {
    pub open spec fn spec_scale() -> nat { 28 }

    pub fn new(v: u128) -> (r: Self)
        ensures
            r.v == v,
    {
        FeeGrowth { v }
    }

    pub fn get(&self) -> (r: u128)
        ensures
            r == self.v,
    {
        self.v
    }

    pub fn scale() -> (r: u8)
        ensures
            r == Self::spec_scale(),
    {
        28
    }

    /// The number 1, that is `10^scale` in raw form.
    pub fn one() -> (r: Self)
        ensures
            r.v == pow10(Self::spec_scale()),
    {
        proof { lemma_pow10_values(); }
        FeeGrowth { v: 10000000000000000000000000000u128 }
    }

    /// The number `integer`, which must fit.
    pub fn from_integer(integer: u128) -> (r: Self)
        requires
            integer * pow10(Self::spec_scale()) <= u128::MAX,
        ensures
            r.v == integer * pow10(Self::spec_scale()),
    {
        proof { lemma_pow10_values(); }
        FeeGrowth { v: integer * 10000000000000000000000000000u128 }
    }

    /// Rescales `integer`, given with `scale` decimal places, rounding down.
    pub fn from_scale(integer: u128, scale: u8) -> (r: Self)
        requires
            from_scale_defined(integer as nat, 28, scale as nat),
        ensures
            r.v == rescale_down(integer as nat, 28, scale as nat),
    {
        FeeGrowth { v: u128_from_scale(integer, 28, scale, false) }
    }

    /// Rescales `integer`, given with `scale` decimal places, rounding up.
    pub fn from_scale_up(integer: u128, scale: u8) -> (r: Self)
        requires
            from_scale_up_defined(integer as nat, 28, scale as nat),
        ensures
            r.v == rescale_up(integer as nat, 28, scale as nat),
    {
        FeeGrowth { v: u128_from_scale(integer, 28, scale, true) }
    }

    /// Rescales `integer` rounding down, or an error where the result does not fit.
    pub fn checked_from_scale(integer: u128, scale: u8) -> (r: Result<Self, String>)
        ensures
            r is Ok <==> from_scale_defined(integer as nat, 28, scale as nat),
            r matches Ok(d) ==> d.v == rescale_down(integer as nat, 28, scale as nat),
    {
        match u128_checked_from_scale(integer, 28, scale) {
            Some(v) => Ok(FeeGrowth { v }),
            None => Err(String::from_str("checked_from_scale: the result does not fit")),
        }
    }

    pub fn max_instance() -> (r: Self)
        ensures
            r.v == u128::MAX,
    {
        FeeGrowth { v: u128::MAX }
    }

    pub fn is_zero(&self) -> (r: bool)
        ensures
            r == (self.v == 0),
    {
        self.v == 0
    }

    pub fn checked_add(&self, other: &Self) -> (r: Option<Self>)
        ensures
            r is Some <==> self.v + other.v <= u128::MAX,
            r matches Some(d) ==> d.v == self.v + other.v,
    {
        match self.v.checked_add(other.v) {
            Some(v) => Some(FeeGrowth { v }),
            None => None,
        }
    }

    pub fn checked_sub(&self, other: &Self) -> (r: Option<Self>)
        ensures
            r is Some <==> self.v >= other.v,
            r matches Some(d) ==> d.v == self.v - other.v,
    {
        match self.v.checked_sub(other.v) {
            Some(v) => Some(FeeGrowth { v }),
            None => None,
        }
    }
}

/// Seconds per unit of liquidity, with 24 decimal places; it may wrap around.
#[derive(Clone, Copy, Debug, PartialEq, Eq, Structural)]
pub struct SecondsPerLiquidity {
    pub v: u128,
}

impl SecondsPerLiquidity {
    pub open spec fn spec_scale() -> nat { 24 }

    pub fn new(v: u128) -> (r: Self)
        ensures
            r.v == v,
    {
        SecondsPerLiquidity { v }
    }

    pub fn get(&self) -> (r: u128)
        ensures
            r == self.v,
    {
        self.v
    }

    pub fn scale() -> (r: u8)
        ensures
            r == Self::spec_scale(),
    {
        24
    }

    /// The number 1, that is `10^scale` in raw form.
    pub fn one() -> (r: Self)
        ensures
            r.v == pow10(Self::spec_scale()),
    {
        proof { lemma_pow10_values(); }
        SecondsPerLiquidity { v: 1000000000000000000000000u128 }
    }

    /// The number `integer`, which must fit.
    pub fn from_integer(integer: u128) -> (r: Self)
        requires
            integer * pow10(Self::spec_scale()) <= u128::MAX,
        ensures
            r.v == integer * pow10(Self::spec_scale()),
    {
        proof { lemma_pow10_values(); }
        SecondsPerLiquidity { v: integer * 1000000000000000000000000u128 }
    }

    /// Rescales `integer`, given with `scale` decimal places, rounding down.
    pub fn from_scale(integer: u128, scale: u8) -> (r: Self)
        requires
            from_scale_defined(integer as nat, 24, scale as nat),
        ensures
            r.v == rescale_down(integer as nat, 24, scale as nat),
    {
        SecondsPerLiquidity { v: u128_from_scale(integer, 24, scale, false) }
    }

    /// Rescales `integer`, given with `scale` decimal places, rounding up.
    pub fn from_scale_up(integer: u128, scale: u8) -> (r: Self)
        requires
            from_scale_up_defined(integer as nat, 24, scale as nat),
        ensures
            r.v == rescale_up(integer as nat, 24, scale as nat),
    {
        SecondsPerLiquidity { v: u128_from_scale(integer, 24, scale, true) }
    }

    /// Rescales `integer` rounding down, or an error where the result does not fit.
    pub fn checked_from_scale(integer: u128, scale: u8) -> (r: Result<Self, String>)
        ensures
            r is Ok <==> from_scale_defined(integer as nat, 24, scale as nat),
            r matches Ok(d) ==> d.v == rescale_down(integer as nat, 24, scale as nat),
    {
        match u128_checked_from_scale(integer, 24, scale) {
            Some(v) => Ok(SecondsPerLiquidity { v }),
            None => Err(String::from_str("checked_from_scale: the result does not fit")),
        }
    }

    pub fn max_instance() -> (r: Self)
        ensures
            r.v == u128::MAX,
    {
        SecondsPerLiquidity { v: u128::MAX }
    }

    pub fn is_zero(&self) -> (r: bool)
        ensures
            r == (self.v == 0),
    {
        self.v == 0
    }

    pub fn checked_add(&self, other: &Self) -> (r: Option<Self>)
        ensures
            r is Some <==> self.v + other.v <= u128::MAX,
            r matches Some(d) ==> d.v == self.v + other.v,
    {
        match self.v.checked_add(other.v) {
            Some(v) => Some(SecondsPerLiquidity { v }),
            None => None,
        }
    }

    pub fn checked_sub(&self, other: &Self) -> (r: Option<Self>)
        ensures
            r is Some <==> self.v >= other.v,
            r matches Some(d) ==> d.v == self.v - other.v,
    {
        match self.v.checked_sub(other.v) {
            Some(v) => Some(SecondsPerLiquidity { v }),
            None => None,
        }
    }
}

/// A general fixed-point number with 12 decimal places.
#[derive(Clone, Copy, Debug, PartialEq, Eq, Structural)]
pub struct FixedPoint {
    pub v: u128,
}

impl FixedPoint {
    pub open spec fn spec_scale() -> nat { 12 }

    pub fn new(v: u128) -> (r: Self)
        ensures
            r.v == v,
    {
        FixedPoint { v }
    }

    pub fn get(&self) -> (r: u128)
        ensures
            r == self.v,
    {
        self.v
    }

    pub fn scale() -> (r: u8)
        ensures
            r == Self::spec_scale(),
    {
        12
    }

    /// The number 1, that is `10^scale` in raw form.
    pub fn one() -> (r: Self)
        ensures
            r.v == pow10(Self::spec_scale()),
    {
        proof { lemma_pow10_values(); }
        FixedPoint { v: 1000000000000u128 }
    }

    /// The number `integer`, which must fit.
    pub fn from_integer(integer: u128) -> (r: Self)
        requires
            integer * pow10(Self::spec_scale()) <= u128::MAX,
        ensures
            r.v == integer * pow10(Self::spec_scale()),
    {
        proof { lemma_pow10_values(); }
        FixedPoint { v: integer * 1000000000000u128 }
    }

    /// Rescales `integer`, given with `scale` decimal places, rounding down.
    pub fn from_scale(integer: u128, scale: u8) -> (r: Self)
        requires
            from_scale_defined(integer as nat, 12, scale as nat),
        ensures
            r.v == rescale_down(integer as nat, 12, scale as nat),
    {
        FixedPoint { v: u128_from_scale(integer, 12, scale, false) }
    }

    /// Rescales `integer`, given with `scale` decimal places, rounding up.
    pub fn from_scale_up(integer: u128, scale: u8) -> (r: Self)
        requires
            from_scale_up_defined(integer as nat, 12, scale as nat),
        ensures
            r.v == rescale_up(integer as nat, 12, scale as nat),
    {
        FixedPoint { v: u128_from_scale(integer, 12, scale, true) }
    }

    /// Rescales `integer` rounding down, or an error where the result does not fit.
    pub fn checked_from_scale(integer: u128, scale: u8) -> (r: Result<Self, String>)
        ensures
            r is Ok <==> from_scale_defined(integer as nat, 12, scale as nat),
            r matches Ok(d) ==> d.v == rescale_down(integer as nat, 12, scale as nat),
    {
        match u128_checked_from_scale(integer, 12, scale) {
            Some(v) => Ok(FixedPoint { v }),
            None => Err(String::from_str("checked_from_scale: the result does not fit")),
        }
    }

    pub fn max_instance() -> (r: Self)
        ensures
            r.v == u128::MAX,
    {
        FixedPoint { v: u128::MAX }
    }

    pub fn is_zero(&self) -> (r: bool)
        ensures
            r == (self.v == 0),
    {
        self.v == 0
    }

    pub fn checked_add(&self, other: &Self) -> (r: Option<Self>)
        ensures
            r is Some <==> self.v + other.v <= u128::MAX,
            r matches Some(d) ==> d.v == self.v + other.v,
    {
        match self.v.checked_add(other.v) {
            Some(v) => Some(FixedPoint { v }),
            None => None,
        }
    }

    pub fn checked_sub(&self, other: &Self) -> (r: Option<Self>)
        ensures
            r is Some <==> self.v >= other.v,
            r matches Some(d) ==> d.v == self.v - other.v,
    {
        match self.v.checked_sub(other.v) {
            Some(v) => Some(FixedPoint { v }),
            None => None,
        }
    }
}

/// A price with 24 decimal places.
#[derive(Clone, Copy, Debug, PartialEq, Eq, Structural)]
pub struct Price {
    pub v: u128,
}

impl Price {
    pub open spec fn spec_scale() -> nat { 24 }

    pub fn new(v: u128) -> (r: Self)
        ensures
            r.v == v,
    {
        Price { v }
    }

    pub fn get(&self) -> (r: u128)
        ensures
            r == self.v,
    {
        self.v
    }

    pub fn scale() -> (r: u8)
        ensures
            r == Self::spec_scale(),
    {
        24
    }

    /// The number 1, that is `10^scale` in raw form.
    pub fn one() -> (r: Self)
        ensures
            r.v == pow10(Self::spec_scale()),
    {
        proof { lemma_pow10_values(); }
        Price { v: 1000000000000000000000000u128 }
    }

    /// The number `integer`, which must fit.
    pub fn from_integer(integer: u128) -> (r: Self)
        requires
            integer * pow10(Self::spec_scale()) <= u128::MAX,
        ensures
            r.v == integer * pow10(Self::spec_scale()),
    {
        proof { lemma_pow10_values(); }
        Price { v: integer * 1000000000000000000000000u128 }
    }

    /// Rescales `integer`, given with `scale` decimal places, rounding down.
    pub fn from_scale(integer: u128, scale: u8) -> (r: Self)
        requires
            from_scale_defined(integer as nat, 24, scale as nat),
        ensures
            r.v == rescale_down(integer as nat, 24, scale as nat),
    {
        Price { v: u128_from_scale(integer, 24, scale, false) }
    }

    /// Rescales `integer`, given with `scale` decimal places, rounding up.
    pub fn from_scale_up(integer: u128, scale: u8) -> (r: Self)
        requires
            from_scale_up_defined(integer as nat, 24, scale as nat),
        ensures
            r.v == rescale_up(integer as nat, 24, scale as nat),
    {
        Price { v: u128_from_scale(integer, 24, scale, true) }
    }

    /// Rescales `integer` rounding down, or an error where the result does not fit.
    pub fn checked_from_scale(integer: u128, scale: u8) -> (r: Result<Self, String>)
        ensures
            r is Ok <==> from_scale_defined(integer as nat, 24, scale as nat),
            r matches Ok(d) ==> d.v == rescale_down(integer as nat, 24, scale as nat),
    {
        match u128_checked_from_scale(integer, 24, scale) {
            Some(v) => Ok(Price { v }),
            None => Err(String::from_str("checked_from_scale: the result does not fit")),
        }
    }

    pub fn max_instance() -> (r: Self)
        ensures
            r.v == u128::MAX,
    {
        Price { v: u128::MAX }
    }

    pub fn is_zero(&self) -> (r: bool)
        ensures
            r == (self.v == 0),
    {
        self.v == 0
    }

    pub fn checked_add(&self, other: &Self) -> (r: Option<Self>)
        ensures
            r is Some <==> self.v + other.v <= u128::MAX,
            r matches Some(d) ==> d.v == self.v + other.v,
    {
        match self.v.checked_add(other.v) {
            Some(v) => Some(Price { v }),
            None => None,
        }
    }

    pub fn checked_sub(&self, other: &Self) -> (r: Option<Self>)
        ensures
            r is Some <==> self.v >= other.v,
            r matches Some(d) ==> d.v == self.v - other.v,
    {
        match self.v.checked_sub(other.v) {
            Some(v) => Some(Price { v }),
            None => None,
        }
    }
}

/// An amount of a token, in its smallest unit.
#[derive(Clone, Copy, Debug, PartialEq, Eq, Structural)]
pub struct TokenAmount {
    pub v: U256,
}

impl TokenAmount {
    pub open spec fn spec_scale() -> nat { 0 }

    pub open spec fn raw(self) -> nat { self.v.value() }

    pub fn new(v: U256) -> (r: Self)
        ensures
            r.v == v,
    {
        TokenAmount { v }
    }

    pub fn get(&self) -> (r: U256)
        ensures
            r == self.v,
    {
        self.v
    }

    pub fn scale() -> (r: u8)
        ensures
            r == Self::spec_scale(),
    {
        0
    }

    /// The number 1, that is `10^scale` in raw form.
    pub fn one() -> (r: Self)
        ensures
            r.raw() == pow10(Self::spec_scale()),
    {
        proof { lemma_pow10_values(); }
        TokenAmount { v: U256::from_u128(1u128) }
    }

    /// The number `integer`, which must fit.
    pub fn from_integer(integer: U256) -> (r: Self)
        requires
            integer.value() * pow10(Self::spec_scale()) < pow256(),
        ensures
            r.raw() == integer.value() * pow10(Self::spec_scale()),
    {
        let one = Self::one();
        TokenAmount { v: integer.checked_mul(&one.v).unwrap() }
    }

    /// Rescales `integer`, given with `scale` decimal places, rounding down;
    /// the power of ten and the result must fit.
    pub fn from_scale(integer: U256, scale: u8) -> (r: Self)
        requires
            from_scale_defined_256(integer.value(), 0, scale as nat),
        ensures
            r.raw() == rescale_down(integer.value(), 0, scale as nat),
    {
        TokenAmount { v: u256_from_scale(integer, 0, scale, false) }
    }

    /// Rescales `integer`, given with `scale` decimal places, rounding up;
    /// the power of ten, the rounding sum and the result must fit.
    pub fn from_scale_up(integer: U256, scale: u8) -> (r: Self)
        requires
            from_scale_up_defined_256(integer.value(), 0, scale as nat),
        ensures
            r.raw() == rescale_up(integer.value(), 0, scale as nat),
    {
        TokenAmount { v: u256_from_scale(integer, 0, scale, true) }
    }

    /// Rescales `integer` rounding down, or an error where the power of ten
    /// or the result does not fit.
    pub fn checked_from_scale(integer: U256, scale: u8) -> (r: Result<Self, String>)
        ensures
            r is Ok <==> from_scale_defined_256(integer.value(), 0, scale as nat),
            r matches Ok(d) ==> d.raw() == rescale_down(integer.value(), 0, scale as nat),
    {
        match u256_checked_from_scale(integer, 0, scale) {
            Some(v) => Ok(TokenAmount { v }),
            None => Err(String::from_str("checked_from_scale: the result does not fit")),
        }
    }

    pub fn max_instance() -> (r: Self)
        ensures
            r.raw() == pow256() - 1,
    {
        TokenAmount { v: U256::max_value() }
    }

    pub fn is_zero(&self) -> (r: bool)
        ensures
            r == (self.raw() == 0),
    {
        self.v.is_zero()
    }

    pub fn checked_add(&self, other: &Self) -> (r: Option<Self>)
        ensures
            r is Some <==> self.raw() + other.raw() < pow256(),
            r matches Some(d) ==> d.raw() == self.raw() + other.raw(),
    {
        match self.v.checked_add(&other.v) {
            Some(v) => Some(TokenAmount { v }),
            None => None,
        }
    }

    pub fn checked_sub(&self, other: &Self) -> (r: Option<Self>)
        ensures
            r is Some <==> self.raw() >= other.raw(),
            r matches Some(d) ==> d.raw() == self.raw() - other.raw(),
    {
        match self.v.checked_sub(&other.v) {
            Some(v) => Some(TokenAmount { v }),
            None => None,
        }
    }

    /// `self + other`, which must fit.
    pub fn add(&self, other: &Self) -> (r: Self)
        requires
            self.raw() + other.raw() < pow256(),
        ensures
            r.raw() == self.raw() + other.raw(),
    {
        TokenAmount { v: self.v.add(&other.v) }
    }

    /// `self - other`, where `other` is not the larger.
    pub fn sub(&self, other: &Self) -> (r: Self)
        requires
            self.raw() >= other.raw(),
        ensures
            r.raw() == self.raw() - other.raw(),
    {
        TokenAmount { v: self.v.sub(&other.v) }
    }

    pub fn lt(&self, other: &Self) -> (r: bool)
        ensures
            r == (self.raw() < other.raw()),
    {
        self.v.lt(&other.v)
    }
}

/// Liquidity with 5 decimal places.
#[derive(Clone, Copy, Debug, PartialEq, Eq, Structural)]
pub struct Liquidity {
    pub v: U256,
}

impl Liquidity {
    pub open spec fn spec_scale() -> nat { 5 }

    pub open spec fn raw(self) -> nat { self.v.value() }

    pub fn new(v: U256) -> (r: Self)
        ensures
            r.v == v,
    {
        Liquidity { v }
    }

    pub fn get(&self) -> (r: U256)
        ensures
            r == self.v,
    {
        self.v
    }

    pub fn scale() -> (r: u8)
        ensures
            r == Self::spec_scale(),
    {
        5
    }

    /// The number 1, that is `10^scale` in raw form.
    pub fn one() -> (r: Self)
        ensures
            r.raw() == pow10(Self::spec_scale()),
    {
        proof { lemma_pow10_values(); }
        Liquidity { v: U256::from_u128(100000u128) }
    }

    /// The number `integer`, which must fit.
    pub fn from_integer(integer: U256) -> (r: Self)
        requires
            integer.value() * pow10(Self::spec_scale()) < pow256(),
        ensures
            r.raw() == integer.value() * pow10(Self::spec_scale()),
    {
        let one = Self::one();
        Liquidity { v: integer.checked_mul(&one.v).unwrap() }
    }

    /// Rescales `integer`, given with `scale` decimal places, rounding down;
    /// the power of ten and the result must fit.
    pub fn from_scale(integer: U256, scale: u8) -> (r: Self)
        requires
            from_scale_defined_256(integer.value(), 5, scale as nat),
        ensures
            r.raw() == rescale_down(integer.value(), 5, scale as nat),
    {
        Liquidity { v: u256_from_scale(integer, 5, scale, false) }
    }

    /// Rescales `integer`, given with `scale` decimal places, rounding up;
    /// the power of ten, the rounding sum and the result must fit.
    pub fn from_scale_up(integer: U256, scale: u8) -> (r: Self)
        requires
            from_scale_up_defined_256(integer.value(), 5, scale as nat),
        ensures
            r.raw() == rescale_up(integer.value(), 5, scale as nat),
    {
        Liquidity { v: u256_from_scale(integer, 5, scale, true) }
    }

    /// Rescales `integer` rounding down, or an error where the power of ten
    /// or the result does not fit.
    pub fn checked_from_scale(integer: U256, scale: u8) -> (r: Result<Self, String>)
        ensures
            r is Ok <==> from_scale_defined_256(integer.value(), 5, scale as nat),
            r matches Ok(d) ==> d.raw() == rescale_down(integer.value(), 5, scale as nat),
    {
        match u256_checked_from_scale(integer, 5, scale) {
            Some(v) => Ok(Liquidity { v }),
            None => Err(String::from_str("checked_from_scale: the result does not fit")),
        }
    }

    pub fn max_instance() -> (r: Self)
        ensures
            r.raw() == pow256() - 1,
    {
        Liquidity { v: U256::max_value() }
    }

    pub fn is_zero(&self) -> (r: bool)
        ensures
            r == (self.raw() == 0),
    {
        self.v.is_zero()
    }

    pub fn checked_add(&self, other: &Self) -> (r: Option<Self>)
        ensures
            r is Some <==> self.raw() + other.raw() < pow256(),
            r matches Some(d) ==> d.raw() == self.raw() + other.raw(),
    {
        match self.v.checked_add(&other.v) {
            Some(v) => Some(Liquidity { v }),
            None => None,
        }
    }

    pub fn checked_sub(&self, other: &Self) -> (r: Option<Self>)
        ensures
            r is Some <==> self.raw() >= other.raw(),
            r matches Some(d) ==> d.raw() == self.raw() - other.raw(),
    {
        match self.v.checked_sub(&other.v) {
            Some(v) => Some(Liquidity { v }),
            None => None,
        }
    }

    /// `self + other`, which must fit.
    pub fn add(&self, other: &Self) -> (r: Self)
        requires
            self.raw() + other.raw() < pow256(),
        ensures
            r.raw() == self.raw() + other.raw(),
    {
        Liquidity { v: self.v.add(&other.v) }
    }

    /// `self - other`, where `other` is not the larger.
    pub fn sub(&self, other: &Self) -> (r: Self)
        requires
            self.raw() >= other.raw(),
        ensures
            r.raw() == self.raw() - other.raw(),
    {
        Liquidity { v: self.v.sub(&other.v) }
    }

    pub fn lt(&self, other: &Self) -> (r: bool)
        ensures
            r == (self.raw() < other.raw()),
    {
        self.v.lt(&other.v)
    }
}



/// `a * b / d` rounded down, where `d` is not zero and the quotient fits in 256 bits.
pub fn mul_div_down(a: &U256, b: &U256, d: &U256) -> (r: Option<U256>)
    ensures
        r is Some <==> d.value() != 0 && a.value() * b.value() / d.value() < pow256(),
        r matches Some(v) ==> v.value() == a.value() * b.value() / d.value(),
{
    let product = a.full_mul(b);
    match product.checked_div(&U512::from_u256(*d)) {
        Some(q) => q.checked_to_u256(),
        None => None,
    }
}

/// `a * b / d` rounded up, where `d` is not zero and the quotient fits in 256 bits.
pub fn mul_div_up(a: &U256, b: &U256, d: &U256) -> (r: Option<U256>)
    ensures
        r is Some <==> d.value() != 0 && (a.value() * b.value() + d.value() - 1) / (d.value() as int) < pow256(),
        r matches Some(v) ==> v.value() == (a.value() * b.value() + d.value() - 1) / (d.value() as int),
{
    if d.is_zero() {
        return None;
    }
    let product = a.full_mul(b);
    let almost = U512::from_u256(d.sub(&U256::from_u128(1)));
    proof {
        crate::uint::lemma_limbs4_bound(a.l0, a.l1, a.l2, a.l3);
        crate::uint::lemma_limbs4_bound(b.l0, b.l1, b.l2, b.l3);
        crate::uint::lemma_limbs4_bound(d.l0, d.l1, d.l2, d.l3);
        assert(a.value() * b.value() <= (pow256() - 1) * (pow256() - 1)) by (nonlinear_arith)
            requires a.value() < pow256(), b.value() < pow256();
        assert((pow256() - 1) * (pow256() - 1) + pow256() < crate::uint::pow512());
    }
    let sum = product.checked_add(&almost).unwrap();
    let q = sum.checked_div(&U512::from_u256(*d)).unwrap();
    q.checked_to_u256()
}

impl FeeGrowth {
    /// `self + other`, wrapping around at 2^128.
    pub fn unchecked_add(&self, other: &FeeGrowth) -> (r: FeeGrowth)
        ensures
            r.v == (self.v + other.v) % (pow128() as int),
    {
        FeeGrowth { v: self.v.wrapping_add(other.v) }
    }

    /// `self - other`, wrapping around at 2^128.
    pub fn unchecked_sub(&self, other: &FeeGrowth) -> (r: FeeGrowth)
        ensures
            r.v == (self.v - other.v) % (pow128() as int),
    {
        FeeGrowth { v: self.v.wrapping_sub(other.v) }
    }

    /// The fee growth that `fee` spread over `liquidity` amounts to:
    /// `fee / liquidity` with 28 decimal places, rounded down. `None` for
    /// zero liquidity or a growth beyond 128 bits.
    pub fn from_fee(liquidity: &Liquidity, fee: &TokenAmount) -> (r: Option<FeeGrowth>)
        ensures
            r is Some <==> liquidity.raw() != 0 && fee.raw() * pow10(33) / liquidity.raw() < pow128(),
            r matches Some(g) ==> g.v == fee.raw() * pow10(33) / liquidity.raw(),
    {
        proof { lemma_pow10_values(); }
        let scale = U256::from_u128(1_000_000_000_000_000_000_000_000_000_000_000u128);
        match mul_div_down(&fee.v, &scale, &liquidity.v) {
            Some(q) => {
                proof {
                    if liquidity.raw() != 0 && q.value() >= pow256() { assert(false); }
                }
                match q.checked_to_u128() {
                    Some(v) => Some(FeeGrowth { v }),
                    None => None,
                }
            }
            None => {
                proof {
                    if liquidity.raw() != 0 {
                        assert(fee.raw() * pow10(33) / liquidity.raw() >= pow256());
                    }
                }
                None
            }
        }
    }

    /// The fee that this growth earns `liquidity`: `self * liquidity`
    /// taken back from 28 + 5 decimal places, rounded down. `None` where it
    /// does not fit in 256 bits.
    pub fn to_fee(&self, liquidity: &Liquidity) -> (r: Option<TokenAmount>)
        ensures
            r is Some <==> self.v * liquidity.raw() / (pow10(33) as int) < pow256(),
            r matches Some(t) ==> t.raw() == self.v * liquidity.raw() / (pow10(33) as int),
    {
        proof { lemma_pow10_values(); }
        let scale = U256::from_u128(1_000_000_000_000_000_000_000_000_000_000_000u128);
        match mul_div_down(&U256::from_u128(self.v), &liquidity.v, &scale) {
            Some(v) => Some(TokenAmount { v }),
            None => None,
        }
    }
}

impl SecondsPerLiquidity {
    /// `self + other`, wrapping around at 2^128.
    pub fn unchecked_add(&self, other: &SecondsPerLiquidity) -> (r: SecondsPerLiquidity)
        ensures
            r.v == (self.v + other.v) % (pow128() as int),
    {
        SecondsPerLiquidity { v: self.v.wrapping_add(other.v) }
    }

    /// `self - other`, wrapping around at 2^128.
    pub fn unchecked_sub(&self, other: &SecondsPerLiquidity) -> (r: SecondsPerLiquidity)
        ensures
            r.v == (self.v - other.v) % (pow128() as int),
    {
        SecondsPerLiquidity { v: self.v.wrapping_sub(other.v) }
    }
}

/// Spreading a fee over a liquidity and paying it back out never pays more
/// than the fee: the growth `fee * 10^33 / liquidity` (rounded down) earns
/// that liquidity at most `fee` (rounded down again).
pub proof fn law_fee_round_trip_never_overpays(fee: nat, liquidity: nat)
    requires
        liquidity > 0,
    ensures
        (fee * pow10(33) / liquidity) * liquidity / pow10(33) <= fee,
{
    lemma_pow10_pos(33);
    let k = pow10(33);
    let g: nat = fee * k / liquidity;
    assert(g * liquidity <= fee * k) by (nonlinear_arith)
        requires g == fee * k / liquidity, liquidity > 0;
    assert(g * liquidity / k <= fee) by (nonlinear_arith)
        requires g * liquidity <= fee * k, k > 0;
}

} // verus!
