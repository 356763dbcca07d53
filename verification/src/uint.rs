//! Unsigned 256- and 512-bit integers held as little-endian 64-bit limbs.
//! Their arithmetic is done by `primitive_types`, through the trusted
//! wrappers at the end of this file; conversions are proved here.
use vstd::prelude::*;
use vstd::arithmetic::div_mod::lemma_fundamental_div_mod_converse;

verus! {

pub open spec fn pow64() -> nat { 0x1_0000_0000_0000_0000nat }
pub open spec fn pow128() -> nat { 0x1_0000_0000_0000_0000_0000_0000_0000_0000nat }
pub open spec fn pow192() -> nat { 6277101735386680763835789423207666416102355444464034512896nat }
pub open spec fn pow256() -> nat { 115792089237316195423570985008687907853269984665640564039457584007913129639936nat }
pub open spec fn pow512() -> nat { 13407807929942597099574024998205846127479365820592393377723561443721764030073546976801874298166903427690031858186486050853753882811946569946433649006084096nat }

/// A 256-bit unsigned integer.
#[derive(Clone, Copy, Debug, PartialEq, Eq, Structural)]
pub struct U256 {
    pub l0: u64,
    pub l1: u64,
    pub l2: u64,
    pub l3: u64,
}

/// A 512-bit unsigned integer.
#[derive(Clone, Copy, Debug, PartialEq, Eq, Structural)]
pub struct U512 {
    pub l0: u64,
    pub l1: u64,
    pub l2: u64,
    pub l3: u64,
    pub l4: u64,
    pub l5: u64,
    pub l6: u64,
    pub l7: u64,
}

pub open spec fn limbs4_value(l0: u64, l1: u64, l2: u64, l3: u64) -> nat {
    l0 as nat + pow64() * (l1 as nat + pow64() * (l2 as nat + pow64() * l3 as nat))
}

impl U256 {
    pub open spec fn value(self) -> nat {
        limbs4_value(self.l0, self.l1, self.l2, self.l3)
    }
}

impl U512 {
    pub open spec fn value(self) -> nat {
        limbs4_value(self.l0, self.l1, self.l2, self.l3)
            + pow256() * limbs4_value(self.l4, self.l5, self.l6, self.l7)
    }
}

pub proof fn lemma_limbs4_bound(l0: u64, l1: u64, l2: u64, l3: u64)
    ensures
        limbs4_value(l0, l1, l2, l3) < pow256(),
{
    assert(l3 as nat <= pow64() - 1);
    assert(l2 as nat + pow64() * l3 as nat <= pow128() - 1) by (nonlinear_arith)
        requires l2 < pow64(), l3 < pow64(), pow128() == pow64() * pow64();
    assert(l1 as nat + pow64() * (l2 as nat + pow64() * l3 as nat) <= pow192() - 1) by (nonlinear_arith)
        requires l1 < pow64(), l2 as nat + pow64() * l3 as nat <= pow128() - 1, pow192() == pow128() * pow64();
    assert(limbs4_value(l0, l1, l2, l3) <= pow256() - 1) by (nonlinear_arith)
        requires l0 < pow64(), l1 as nat + pow64() * (l2 as nat + pow64() * l3 as nat) <= pow192() - 1,
            pow256() == pow192() * pow64(), pow192() == pow128() * pow64();
}

impl U256 {
    pub fn from_u128(x: u128) -> (r: U256)
        ensures
            r.value() == x,
    {
        let lo = x as u64;
        let hi = (x >> 64u32) as u64;
        assert(lo as nat + 0x1_0000_0000_0000_0000nat * hi as nat == x as nat) by (bit_vector)
            requires lo == x as u64, hi == (x >> 64u32) as u64;
        U256 { l0: lo, l1: hi, l2: 0, l3: 0 }
    }
}


/// A number made of limbs below `pow64()` is split back into its limbs by
/// division and remainder.
pub proof fn lemma_split64(lo: u64, rest: nat)
    ensures
        (lo as nat + pow64() * rest) % pow64() == lo,
        (lo as nat + pow64() * rest) / pow64() == rest,
{
    lemma_fundamental_div_mod_converse((lo as nat + pow64() * rest) as int, pow64() as int, rest as int, lo as int);
}

/// Equal values have equal limbs.
pub proof fn lemma_limbs4_unique(a0: u64, a1: u64, a2: u64, a3: u64, b0: u64, b1: u64, b2: u64, b3: u64)
    requires
        limbs4_value(a0, a1, a2, a3) == limbs4_value(b0, b1, b2, b3),
    ensures
        a0 == b0, a1 == b1, a2 == b2, a3 == b3,
{
    let ra2 = a2 as nat + pow64() * a3 as nat;
    let rb2 = b2 as nat + pow64() * b3 as nat;
    let ra1 = a1 as nat + pow64() * ra2;
    let rb1 = b1 as nat + pow64() * rb2;
    lemma_split64(a0, ra1);
    lemma_split64(b0, rb1);
    lemma_split64(a1, ra2);
    lemma_split64(b1, rb2);
    lemma_split64(a2, a3 as nat);
    lemma_split64(b2, b3 as nat);
}

/// The value is below `pow128()` exactly when the two high limbs are zero.
pub proof fn lemma_limbs4_below_pow128(l0: u64, l1: u64, l2: u64, l3: u64)
    ensures
        (limbs4_value(l0, l1, l2, l3) < pow128()) <==> (l2 == 0 && l3 == 0),
        l2 == 0 && l3 == 0 ==> limbs4_value(l0, l1, l2, l3) == l0 as nat + pow64() * l1 as nat,
{
    let hi = l2 as nat + pow64() * l3 as nat;
    let lo = l0 as nat + pow64() * l1 as nat;
    assert(lo < pow128()) by (nonlinear_arith)
        requires l0 < pow64(), l1 < pow64(), pow128() == pow64() * pow64(), lo == l0 as nat + pow64() * l1 as nat;
    assert(limbs4_value(l0, l1, l2, l3) == lo + pow128() * hi) by (nonlinear_arith)
        requires pow128() == pow64() * pow64(), lo == l0 as nat + pow64() * l1 as nat,
            limbs4_value(l0, l1, l2, l3) == l0 as nat + pow64() * (l1 as nat + pow64() * hi);
    if l2 != 0 || l3 != 0 {
        assert(hi >= 1) by (nonlinear_arith) requires hi == l2 as nat + pow64() * l3 as nat, l2 != 0 || l3 != 0, pow64() > 0;
        assert(pow128() * hi >= pow128()) by (nonlinear_arith) requires hi >= 1;
    }
}

impl U256 {
    pub fn zero() -> (r: U256)
        ensures
            r.value() == 0,
    {
        U256 { l0: 0, l1: 0, l2: 0, l3: 0 }
    }

    /// The largest value, `2^256 - 1`.
    pub fn max_value() -> (r: U256)
        ensures
            r.value() == pow256() - 1,
    {
        let m = 0xffff_ffff_ffff_ffffu64;
        assert(limbs4_value(m, m, m, m) == pow256() - 1);
        U256 { l0: m, l1: m, l2: m, l3: m }
    }

    pub fn is_zero(&self) -> (r: bool)
        ensures
            r == (self.value() == 0),
    {
        proof {
            if self.value() == 0 {
                lemma_limbs4_unique(self.l0, self.l1, self.l2, self.l3, 0, 0, 0, 0);
            }
        }
        self.l0 == 0 && self.l1 == 0 && self.l2 == 0 && self.l3 == 0
    }

    /// The value as a `u128`, where it fits.
    pub fn checked_to_u128(&self) -> (r: Option<u128>)
        ensures
            r is Some <==> self.value() < pow128(),
            r matches Some(v) ==> v == self.value(),
    {
        proof { lemma_limbs4_below_pow128(self.l0, self.l1, self.l2, self.l3); }
        if self.l2 == 0 && self.l3 == 0 {
            let lo = self.l0 as u128;
            let hi = self.l1 as u128;
            assert(lo + hi * 0x1_0000_0000_0000_0000u128 <= u128::MAX) by (nonlinear_arith)
                requires lo < 0x1_0000_0000_0000_0000u128, hi < 0x1_0000_0000_0000_0000u128;
            Some(lo + hi * 0x1_0000_0000_0000_0000u128)
        } else {
            None
        }
    }
}

impl U512 {
    /// Widens a 256-bit value.
    pub fn from_u256(x: U256) -> (r: U512)
        ensures
            r.value() == x.value(),
    {
        assert(limbs4_value(0, 0, 0, 0) == 0);
        U512 { l0: x.l0, l1: x.l1, l2: x.l2, l3: x.l3, l4: 0, l5: 0, l6: 0, l7: 0 }
    }

    /// Narrows to 256 bits, where the value fits.
    pub fn checked_to_u256(&self) -> (r: Option<U256>)
        ensures
            r is Some <==> self.value() < pow256(),
            r matches Some(v) ==> v.value() == self.value(),
    {
        let ghost hi = limbs4_value(self.l4, self.l5, self.l6, self.l7);
        let ghost lo = limbs4_value(self.l0, self.l1, self.l2, self.l3);
        proof {
            lemma_limbs4_bound(self.l0, self.l1, self.l2, self.l3);
            if hi == 0 {
                lemma_limbs4_unique(self.l4, self.l5, self.l6, self.l7, 0, 0, 0, 0);
            } else {
                assert(pow256() * hi >= pow256()) by (nonlinear_arith) requires hi >= 1;
            }
        }
        if self.l4 == 0 && self.l5 == 0 && self.l6 == 0 && self.l7 == 0 {
            Some(U256 { l0: self.l0, l1: self.l1, l2: self.l2, l3: self.l3 })
        } else {
            None
        }
    }
}


impl U256 {
    /// `self + other`, or `None` on overflow.
    pub fn checked_add(&self, other: &U256) -> (r: Option<U256>)
        ensures
            r is Some <==> self.value() + other.value() < pow256(),
            r matches Some(v) ==> v.value() == self.value() + other.value(),
    {
        u256_checked_add(*self, *other)
    }

    /// `self - other`, or `None` when `other` is larger.
    pub fn checked_sub(&self, other: &U256) -> (r: Option<U256>)
        ensures
            r is Some <==> self.value() >= other.value(),
            r matches Some(v) ==> v.value() == self.value() - other.value(),
    {
        u256_checked_sub(*self, *other)
    }

    /// `self * other`, or `None` on overflow.
    pub fn checked_mul(&self, other: &U256) -> (r: Option<U256>)
        ensures
            r is Some <==> self.value() * other.value() < pow256(),
            r matches Some(v) ==> v.value() == self.value() * other.value(),
    {
        u256_checked_mul(*self, *other)
    }

    /// `self + other`; the sum must fit.
    pub fn add(&self, other: &U256) -> (r: U256)
        requires
            self.value() + other.value() < pow256(),
        ensures
            r.value() == self.value() + other.value(),
    {
        u256_checked_add(*self, *other).unwrap()
    }

    /// `self - other`; `other` must not be larger.
    pub fn sub(&self, other: &U256) -> (r: U256)
        requires
            self.value() >= other.value(),
        ensures
            r.value() == self.value() - other.value(),
    {
        u256_checked_sub(*self, *other).unwrap()
    }

    pub fn lt(&self, other: &U256) -> (r: bool)
        ensures
            r == (self.value() < other.value()),
    {
        u256_lt(*self, *other)
    }

    pub fn le(&self, other: &U256) -> (r: bool)
        ensures
            r == (self.value() <= other.value()),
    {
        !u256_lt(*other, *self)
    }

    pub fn eq_value(&self, other: &U256) -> (r: bool)
        ensures
            r == (self.value() == other.value()),
    {
        !u256_lt(*self, *other) && !u256_lt(*other, *self)
    }

    /// The full product, which always fits in 512 bits.
    pub fn full_mul(&self, other: &U256) -> (r: U512)
        ensures
            r.value() == self.value() * other.value(),
    {
        u256_full_mul(*self, *other)
    }
}

impl U512 {
    /// `self + other`, or `None` on overflow.
    pub fn checked_add(&self, other: &U512) -> (r: Option<U512>)
        ensures
            r is Some <==> self.value() + other.value() < pow512(),
            r matches Some(v) ==> v.value() == self.value() + other.value(),
    {
        u512_checked_add(*self, *other)
    }

    /// `self - other`, or `None` when `other` is larger.
    pub fn checked_sub(&self, other: &U512) -> (r: Option<U512>)
        ensures
            r is Some <==> self.value() >= other.value(),
            r matches Some(v) ==> v.value() == self.value() - other.value(),
    {
        u512_checked_sub(*self, *other)
    }

    /// The quotient rounded down, or `None` when `other` is zero.
    pub fn checked_div(&self, other: &U512) -> (r: Option<U512>)
        ensures
            r is Some <==> other.value() != 0,
            r matches Some(v) ==> v.value() == self.value() / other.value(),
    {
        u512_checked_div(*self, *other)
    }
}

/// `primitive_types::U256::checked_add`: the sum where it is below 2^256, else `None`.
#[verifier::external_body]
fn u256_checked_add(a: U256, b: U256) -> (r: Option<U256>)
    ensures
        r is Some <==> a.value() + b.value() < pow256(),
        r matches Some(v) ==> v.value() == a.value() + b.value(),
{
    let x = primitive_types::U256([a.l0, a.l1, a.l2, a.l3]);
    match x.checked_add(primitive_types::U256([b.l0, b.l1, b.l2, b.l3])) {
        Some(v) => Some(U256 { l0: v.0[0], l1: v.0[1], l2: v.0[2], l3: v.0[3] }),
        None => None,
    }
}

/// `primitive_types::U256::checked_sub`: the difference where `b <= a`, else `None`.
#[verifier::external_body]
fn u256_checked_sub(a: U256, b: U256) -> (r: Option<U256>)
    ensures
        r is Some <==> a.value() >= b.value(),
        r matches Some(v) ==> v.value() == a.value() - b.value(),
{
    let x = primitive_types::U256([a.l0, a.l1, a.l2, a.l3]);
    match x.checked_sub(primitive_types::U256([b.l0, b.l1, b.l2, b.l3])) {
        Some(v) => Some(U256 { l0: v.0[0], l1: v.0[1], l2: v.0[2], l3: v.0[3] }),
        None => None,
    }
}

/// `primitive_types::U256::checked_mul`: the product where it is below 2^256, else `None`.
#[verifier::external_body]
fn u256_checked_mul(a: U256, b: U256) -> (r: Option<U256>)
    ensures
        r is Some <==> a.value() * b.value() < pow256(),
        r matches Some(v) ==> v.value() == a.value() * b.value(),
{
    let x = primitive_types::U256([a.l0, a.l1, a.l2, a.l3]);
    match x.checked_mul(primitive_types::U256([b.l0, b.l1, b.l2, b.l3])) {
        Some(v) => Some(U256 { l0: v.0[0], l1: v.0[1], l2: v.0[2], l3: v.0[3] }),
        None => None,
    }
}

/// The `<` of `primitive_types::U256`: numeric order of the two values.
#[verifier::external_body]
fn u256_lt(a: U256, b: U256) -> (r: bool)
    ensures
        r == (a.value() < b.value()),
{
    primitive_types::U256([a.l0, a.l1, a.l2, a.l3]) < primitive_types::U256([b.l0, b.l1, b.l2, b.l3])
}

/// `primitive_types::U256::full_mul`: the exact 512-bit product.
#[verifier::external_body]
fn u256_full_mul(a: U256, b: U256) -> (r: U512)
    ensures
        r.value() == a.value() * b.value(),
{
    let x = primitive_types::U256([a.l0, a.l1, a.l2, a.l3]);
    let v = x.full_mul(primitive_types::U256([b.l0, b.l1, b.l2, b.l3]));
    U512 { l0: v.0[0], l1: v.0[1], l2: v.0[2], l3: v.0[3], l4: v.0[4], l5: v.0[5], l6: v.0[6], l7: v.0[7] }
}

/// `primitive_types::U512::checked_add`: the sum where it is below 2^512, else `None`.
#[verifier::external_body]
fn u512_checked_add(a: U512, b: U512) -> (r: Option<U512>)
    ensures
        r is Some <==> a.value() + b.value() < pow512(),
        r matches Some(v) ==> v.value() == a.value() + b.value(),
{
    let x = primitive_types::U512([a.l0, a.l1, a.l2, a.l3, a.l4, a.l5, a.l6, a.l7]);
    match x.checked_add(primitive_types::U512([b.l0, b.l1, b.l2, b.l3, b.l4, b.l5, b.l6, b.l7])) {
        Some(v) => Some(U512 { l0: v.0[0], l1: v.0[1], l2: v.0[2], l3: v.0[3], l4: v.0[4], l5: v.0[5], l6: v.0[6], l7: v.0[7] }),
        None => None,
    }
}

/// `primitive_types::U512::checked_sub`: the difference where `b <= a`, else `None`.
#[verifier::external_body]
fn u512_checked_sub(a: U512, b: U512) -> (r: Option<U512>)
    ensures
        r is Some <==> a.value() >= b.value(),
        r matches Some(v) ==> v.value() == a.value() - b.value(),
{
    let x = primitive_types::U512([a.l0, a.l1, a.l2, a.l3, a.l4, a.l5, a.l6, a.l7]);
    match x.checked_sub(primitive_types::U512([b.l0, b.l1, b.l2, b.l3, b.l4, b.l5, b.l6, b.l7])) {
        Some(v) => Some(U512 { l0: v.0[0], l1: v.0[1], l2: v.0[2], l3: v.0[3], l4: v.0[4], l5: v.0[5], l6: v.0[6], l7: v.0[7] }),
        None => None,
    }
}

/// `primitive_types::U512::checked_div`: the quotient rounded down, `None` for a zero divisor.
#[verifier::external_body]
fn u512_checked_div(a: U512, b: U512) -> (r: Option<U512>)
    ensures
        r is Some <==> b.value() != 0,
        r matches Some(v) ==> v.value() == a.value() / b.value(),
{
    let x = primitive_types::U512([a.l0, a.l1, a.l2, a.l3, a.l4, a.l5, a.l6, a.l7]);
    match x.checked_div(primitive_types::U512([b.l0, b.l1, b.l2, b.l3, b.l4, b.l5, b.l6, b.l7])) {
        Some(v) => Some(U512 { l0: v.0[0], l1: v.0[1], l2: v.0[2], l3: v.0[3], l4: v.0[4], l5: v.0[5], l6: v.0[6], l7: v.0[7] }),
        None => None,
    }
}

} // verus!
