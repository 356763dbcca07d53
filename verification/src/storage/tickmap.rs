//! The bitmap of initialized ticks. Each usable tick of a pool (a multiple
//! of its tick spacing within `[-MAX_TICK, MAX_TICK]`) owns one bit; bits are
//! grouped into 64-bit chunks stored per pool.
use vstd::prelude::*;
use crate::collections::mapping::{KeyEq, Mapping};
use crate::storage::pool_key::PoolKey;
use crate::decimal::SqrtPrice;

verus! {

pub const MAX_TICK: i32 = 221_818;
pub const TICK_SEARCH_RANGE: i32 = 256;
pub const CHUNK_SIZE: i32 = 64;

/// `a / b` rounded toward zero, as Rust divides signed integers.
pub open spec fn tdiv(a: int, b: int) -> int {
    if a >= 0 { a / b } else { -((-a) / b) }
}

/// The position of a usable tick in the pool's bitmap.
pub open spec fn bitmap_index(tick: int, tick_spacing: int) -> int {
    (tick + (MAX_TICK as int)) / tick_spacing
}

/// The tick a bitmap position stands for.
pub open spec fn tick_of_index(index: int, tick_spacing: int) -> int {
    (index - (MAX_TICK as int) / tick_spacing) * tick_spacing
}

/// A usable tick: in range and a multiple of the spacing.
pub open spec fn tick_usable(tick: int, tick_spacing: int) -> bool {
    &&& -(MAX_TICK as int) <= tick <= (MAX_TICK as int)
    &&& tick % tick_spacing == 0
}

/// Whether bit `b` of `v` is set.
pub open spec fn bit_set(v: u64, b: u64) -> bool {
    (v >> b) & 1u64 == 1u64
}

/// The limit of a search from `tick`, as `get_search_limit` computes it.
pub open spec fn spec_search_limit(tick: int, tick_spacing: int, up: bool) -> int {
    let index = tdiv(tick, tick_spacing);
    if up {
        let range_limit = index + TICK_SEARCH_RANGE;
        let price_limit = (MAX_TICK as int) / tick_spacing;
        (if range_limit < price_limit { range_limit } else { price_limit }) * tick_spacing
    } else {
        let range_limit = index - TICK_SEARCH_RANGE;
        let price_limit = -((MAX_TICK as int) / tick_spacing);
        (if range_limit > price_limit { range_limit } else { price_limit }) * tick_spacing
    }
}

/// For a tick that is a multiple of the spacing, its bitmap index is its
/// quotient plus `(MAX_TICK as int) / tick_spacing`, and the index leads back to it.
pub proof fn lemma_index_of_usable(tick: int, tick_spacing: int)
    requires
        tick_spacing >= 1,
        tick % tick_spacing == 0,
        tick + (MAX_TICK as int) >= 0,
    ensures
        bitmap_index(tick, tick_spacing) == tick / tick_spacing + (MAX_TICK as int) / tick_spacing,
        tick_of_index(bitmap_index(tick, tick_spacing), tick_spacing) == tick,
        bitmap_index(tick, tick_spacing) >= 0,
{
    let k = tick / tick_spacing;
    let q = (MAX_TICK as int) / tick_spacing;
    let m = (MAX_TICK as int) % tick_spacing;
    vstd::arithmetic::div_mod::lemma_fundamental_div_mod(tick, tick_spacing);
    vstd::arithmetic::div_mod::lemma_fundamental_div_mod((MAX_TICK as int) as int, tick_spacing);
    assert(tick == tick_spacing * k);
    assert(tick + (MAX_TICK as int) == (k + q) * tick_spacing + m) by (nonlinear_arith)
        requires tick == tick_spacing * k, (MAX_TICK as int) == tick_spacing * q + m;
    vstd::arithmetic::div_mod::lemma_fundamental_div_mod_converse(tick + (MAX_TICK as int), tick_spacing, k + q, m);
    assert(tick_of_index(k + q, tick_spacing) == tick) by (nonlinear_arith)
        requires tick_of_index(k + q, tick_spacing) == (k + q - q) * tick_spacing, tick == tick_spacing * k;
}

/// Distinct usable ticks sit at distinct bitmap indices, in the same order.
pub proof fn lemma_index_strictly_increasing(a: int, b: int, tick_spacing: int)
    requires
        tick_spacing >= 1,
        a % tick_spacing == 0,
        b % tick_spacing == 0,
        a + (MAX_TICK as int) >= 0,
        b + (MAX_TICK as int) >= 0,
        a < b,
    ensures
        bitmap_index(a, tick_spacing) < bitmap_index(b, tick_spacing),
{
    lemma_index_of_usable(a, tick_spacing);
    lemma_index_of_usable(b, tick_spacing);
    vstd::arithmetic::div_mod::lemma_fundamental_div_mod(a, tick_spacing);
    vstd::arithmetic::div_mod::lemma_fundamental_div_mod(b, tick_spacing);
    let ka = a / tick_spacing;
    let kb = b / tick_spacing;
    assert(ka < kb) by (nonlinear_arith)
        requires a == tick_spacing * ka, b == tick_spacing * kb, a < b, tick_spacing >= 1;
}

/// Bitmap indices of ticks in range lie in `[0, 2 * MAX_TICK]`.
pub proof fn lemma_index_bound(tick: int, tick_spacing: int)
    requires
        tick_spacing >= 1,
        -(MAX_TICK as int) <= tick <= (MAX_TICK as int),
    ensures
        0 <= bitmap_index(tick, tick_spacing) <= 2 * (MAX_TICK as int),
        bitmap_index(tick, tick_spacing) / 64 <= 6931,
{
    vstd::arithmetic::div_mod::lemma_div_is_ordered(tick + (MAX_TICK as int), 2 * (MAX_TICK as int), tick_spacing);
    vstd::arithmetic::div_mod::lemma_div_is_ordered_by_denominator(2 * (MAX_TICK as int), 1, tick_spacing);
    vstd::arithmetic::div_mod::lemma_div_pos_is_pos(tick + (MAX_TICK as int), tick_spacing);
}

/// The chunk and bit of a usable tick (in range and a multiple of the
/// spacing).
pub fn tick_to_position(tick: i32, tick_spacing: u32) -> (r: (u16, u8))
    requires
        1 <= tick_spacing <= i32::MAX,
        tick_usable(tick as int, tick_spacing as int),
    ensures
        r.0 == bitmap_index(tick as int, tick_spacing as int) / 64,
        r.1 == bitmap_index(tick as int, tick_spacing as int) % 64,
        r.0 <= 6931,
{
    let bitmap_index = (tick + MAX_TICK) / tick_spacing as i32;
    proof { lemma_index_bound(tick as int, tick_spacing as int); }
    let chunk: u16 = (bitmap_index / CHUNK_SIZE) as u16;
    let bit: u8 = (bitmap_index % CHUNK_SIZE) as u8;
    (chunk, bit)
}

/// Bit `position` of `value`, as 0 or 1.
pub fn get_bit_at_position(value: u64, position: u8) -> (r: u64)
    requires
        position < 64,
    ensures
        r == (value >> position) & 1,
        r == 1 <==> bit_set(value, position as u64),
        r == 0 || r == 1,
{
    let r = (value >> position) & 1;
    assert(((value >> position) & 1u64) <= 1u64) by (bit_vector);
    assert((value >> position) == (value >> (position as u64))) by (bit_vector);
    r
}

/// `value` with bit `position` flipped.
pub fn flip_bit_at_position(value: u64, position: u8) -> (r: u64)
    requires
        position < 64,
    ensures
        r == value ^ (1u64 << position),
        forall|j: u64| j < 64 ==> #[trigger] bit_set(r, j) == (if j == position as u64 { !bit_set(value, j) } else { bit_set(value, j) }),
{
    let r = value ^ (1u64 << position);
    assert forall|j: u64| j < 64 implies #[trigger] bit_set(r, j) == (if j == position as u64 { !bit_set(value, j) } else { bit_set(value, j) }) by {
        let p = position as u64;
        assert(r == value ^ (1u64 << p)) by (bit_vector) requires r == value ^ (1u64 << position), p == position as u64;
        assert(j == p ==> (((value ^ (1u64 << p)) >> j) & 1u64 == 1u64) == !((value >> j) & 1u64 == 1u64)) by (bit_vector)
            requires j < 64, p < 64;
        assert(j != p ==> (((value ^ (1u64 << p)) >> j) & 1u64 == 1u64) == ((value >> j) & 1u64 == 1u64)) by (bit_vector)
            requires j < 64, p < 64;
    }
    r
}

/// The farthest tick a search from `tick` looks at: 256 spacings away,
/// but not past the last usable tick.
pub fn get_search_limit(tick: i32, tick_spacing: u32, up: bool) -> (r: i32)
    requires
        1 <= tick_spacing <= i32::MAX,
        up ==> tdiv(tick as int, tick_spacing as int) + (TICK_SEARCH_RANGE as int) <= i32::MAX,
        !up ==> tdiv(tick as int, tick_spacing as int) - (TICK_SEARCH_RANGE as int) >= i32::MIN,
    ensures
        r == spec_search_limit(tick as int, tick_spacing as int, up),
{
    let ts = tick_spacing as i32;
    let index = tick / ts;
    let q = MAX_TICK / ts;
    proof {
        let t = tick as int;
        let s = ts as int;
        let i = index as int;
        vstd::arithmetic::div_mod::lemma_fundamental_div_mod((MAX_TICK as int), s);
        vstd::arithmetic::div_mod::lemma_div_pos_is_pos((MAX_TICK as int), s);
        if t >= 0 {
            vstd::arithmetic::div_mod::lemma_fundamental_div_mod(t, s);
            assert(0 <= i * s <= t) by (nonlinear_arith)
                requires t >= 0, s >= 1, t == s * i + t % s, 0 <= t % s < s, i == t / s;
        } else {
            vstd::arithmetic::div_mod::lemma_fundamental_div_mod(-t, s);
            assert(t <= i * s <= 0) by (nonlinear_arith)
                requires -t >= 0, s >= 1, -t == s * ((-t) / s) + (-t) % s, 0 <= (-t) % s < s, i == -((-t) / s);
        }
        assert(q * s <= (MAX_TICK as int)) by (nonlinear_arith)
            requires (MAX_TICK as int) == s * q + (MAX_TICK as int) % s, (MAX_TICK as int) % s >= 0, s >= 1;
        assert(0 <= q * s) by (nonlinear_arith) requires q >= 0, s >= 1;
    }
    let limit = if up {
        let range_limit = index + TICK_SEARCH_RANGE;
        let price_limit = q;
        if range_limit < price_limit { range_limit } else { price_limit }
    } else {
        let range_limit = index - TICK_SEARCH_RANGE;
        let price_limit = -q;
        if range_limit > price_limit { range_limit } else { price_limit }
    };
    proof {
        let l = limit as int;
        let s = ts as int;
        let i = index as int;
        let t = tick as int;
        if up {
            if l == q {
                assert(0 <= l * s <= (MAX_TICK as int));
            } else {
                assert(l * s == i * s + 256 * s) by (nonlinear_arith) requires l == i + 256;
                assert(l * s <= q * s) by (nonlinear_arith) requires l <= q, s >= 1;
            }
        } else {
            if l == -q {
                assert(l * s == -(q * s)) by (nonlinear_arith) requires l == -q;
            } else {
                assert(l * s == i * s - 256 * s) by (nonlinear_arith) requires l == i - 256;
                assert(l * s >= -q * s) by (nonlinear_arith) requires l >= -q, s >= 1;
                assert(-q * s == -(q * s)) by (nonlinear_arith);
            }
        }
    }
    limit * ts
}


/// The tick of a non-negative bitmap index is a multiple of the spacing
/// whose index is that index.
pub proof fn lemma_tick_of_index(index: int, tick_spacing: int)
    requires
        tick_spacing >= 1,
        index >= 0,
    ensures
        tick_of_index(index, tick_spacing) % tick_spacing == 0,
        tick_of_index(index, tick_spacing) + (MAX_TICK as int) >= 0,
        bitmap_index(tick_of_index(index, tick_spacing), tick_spacing) == index,
{
    let q = (MAX_TICK as int) / tick_spacing;
    let m = (MAX_TICK as int) % tick_spacing;
    let t = tick_of_index(index, tick_spacing);
    vstd::arithmetic::div_mod::lemma_fundamental_div_mod((MAX_TICK as int), tick_spacing);
    assert(t == (index - q) * tick_spacing);
    vstd::arithmetic::div_mod::lemma_mod_multiples_basic(index - q, tick_spacing);
    assert(t + (MAX_TICK as int) == index * tick_spacing + m) by (nonlinear_arith)
        requires t == (index - q) * tick_spacing, (MAX_TICK as int) == tick_spacing * q + m;
    assert(index * tick_spacing >= 0) by (nonlinear_arith) requires index >= 0, tick_spacing >= 1;
    vstd::arithmetic::div_mod::lemma_fundamental_div_mod_converse(t + (MAX_TICK as int), tick_spacing, index, m);
}

/// `tick_of_index` is increasing.
pub proof fn lemma_tick_of_index_mono(a: int, b: int, tick_spacing: int)
    requires
        tick_spacing >= 1,
        a <= b,
    ensures
        tick_of_index(a, tick_spacing) <= tick_of_index(b, tick_spacing),
        a < b ==> tick_of_index(a, tick_spacing) < tick_of_index(b, tick_spacing),
{
    let q = (MAX_TICK as int) / tick_spacing;
    assert((a - q) * tick_spacing <= (b - q) * tick_spacing) by (nonlinear_arith)
        requires a <= b, tick_spacing >= 1;
    assert(a < b ==> (a - q) * tick_spacing < (b - q) * tick_spacing) by (nonlinear_arith)
        requires tick_spacing >= 1;
}

/// Multiples of the spacing are at least one spacing apart.
pub proof fn lemma_next_multiple(a: int, b: int, tick_spacing: int)
    requires
        tick_spacing >= 1,
        a % tick_spacing == 0,
        b % tick_spacing == 0,
        a < b,
    ensures
        a + tick_spacing <= b,
{
    vstd::arithmetic::div_mod::lemma_fundamental_div_mod(a, tick_spacing);
    vstd::arithmetic::div_mod::lemma_fundamental_div_mod(b, tick_spacing);
    let ka = a / tick_spacing;
    let kb = b / tick_spacing;
    assert(ka + 1 <= kb) by (nonlinear_arith)
        requires a == tick_spacing * ka, b == tick_spacing * kb, a < b, tick_spacing >= 1;
    assert(a + tick_spacing <= b) by (nonlinear_arith)
        requires a == tick_spacing * ka, b == tick_spacing * kb, ka + 1 <= kb, tick_spacing >= 1;
}

/// The search limit is a usable tick.
pub proof fn lemma_search_limit_usable(tick: int, tick_spacing: int, up: bool)
    requires
        tick_spacing >= 1,
        up ==> tick + tick_spacing >= -(MAX_TICK as int),
        !up ==> tick <= (MAX_TICK as int),
    ensures
        tick_usable(spec_search_limit(tick, tick_spacing, up), tick_spacing),
{
    let q = (MAX_TICK as int) / tick_spacing;
    let i = tdiv(tick, tick_spacing);
    let l = spec_search_limit(tick, tick_spacing, up);
    vstd::arithmetic::div_mod::lemma_fundamental_div_mod((MAX_TICK as int), tick_spacing);
    vstd::arithmetic::div_mod::lemma_div_pos_is_pos((MAX_TICK as int), tick_spacing);
    assert(q * tick_spacing <= (MAX_TICK as int)) by (nonlinear_arith)
        requires (MAX_TICK as int) == tick_spacing * q + (MAX_TICK as int) % tick_spacing,
            (MAX_TICK as int) % tick_spacing >= 0, tick_spacing >= 1;
    if tick >= 0 {
        vstd::arithmetic::div_mod::lemma_fundamental_div_mod(tick, tick_spacing);
        assert(i * tick_spacing <= tick && (i + 1) * tick_spacing > tick) by (nonlinear_arith)
            requires tick == tick_spacing * i + tick % tick_spacing, 0 <= tick % tick_spacing < tick_spacing;
    } else {
        vstd::arithmetic::div_mod::lemma_fundamental_div_mod(-tick, tick_spacing);
        assert(i * tick_spacing >= tick && i * tick_spacing <= 0) by (nonlinear_arith)
            requires -tick == tick_spacing * (-i) + (-tick) % tick_spacing, 0 <= (-tick) % tick_spacing < tick_spacing,
                tick < 0, tick_spacing >= 1;
    }
    assert(i * tick_spacing > tick - tick_spacing);
    assert(i * tick_spacing <= (if tick >= 0 { tick } else { 0 }));
    if up {
        let k = if i + 256 < q { i + 256 } else { q };
        assert(l == k * tick_spacing);
        assert(k * tick_spacing <= q * tick_spacing) by (nonlinear_arith) requires k <= q, tick_spacing >= 1;
        if k == q {
            assert(k * tick_spacing >= 0) by (nonlinear_arith) requires k >= 0, tick_spacing >= 1;
        } else {
            assert(k * tick_spacing == i * tick_spacing + 256 * tick_spacing) by (nonlinear_arith) requires k == i + 256;
        }
        vstd::arithmetic::div_mod::lemma_mod_multiples_basic(k, tick_spacing);
    } else {
        let k = if i - 256 > -q { i - 256 } else { -q };
        assert(l == k * tick_spacing);
        assert(k * tick_spacing >= -q * tick_spacing) by (nonlinear_arith) requires k >= -q, tick_spacing >= 1;
        assert(-q * tick_spacing == -(q * tick_spacing)) by (nonlinear_arith);
        if k == -q {
            assert(k * tick_spacing <= 0) by (nonlinear_arith) requires k <= 0, tick_spacing >= 1;
        } else {
            assert(k * tick_spacing == i * tick_spacing - 256 * tick_spacing) by (nonlinear_arith) requires k == i - 256;
        }
        vstd::arithmetic::div_mod::lemma_mod_multiples_basic(k, tick_spacing);
    }
}

/// From a multiple of the spacing at least one spacing below the range's
/// top, the upward search limit lies at or above the next usable tick.
pub proof fn lemma_limit_above_next(tick: int, tick_spacing: int)
    requires
        tick_spacing >= 1,
        tick % tick_spacing == 0,
        tick + tick_spacing <= (MAX_TICK as int),
    ensures
        tick + tick_spacing <= spec_search_limit(tick, tick_spacing, true),
{
    let q = (MAX_TICK as int) / tick_spacing;
    let i = tdiv(tick, tick_spacing);
    let start = tick + tick_spacing;
    vstd::arithmetic::div_mod::lemma_fundamental_div_mod(tick, tick_spacing);
    vstd::arithmetic::div_mod::lemma_fundamental_div_mod((MAX_TICK as int), tick_spacing);
    let k = tick / tick_spacing;
    assert(tick == tick_spacing * k);
    if tick < 0 {
        vstd::arithmetic::div_mod::lemma_fundamental_div_mod(-tick, tick_spacing);
        vstd::arithmetic::div_mod::lemma_mod_multiples_basic(-k, tick_spacing);
        assert(-tick == tick_spacing * (-k)) by (nonlinear_arith) requires tick == tick_spacing * k;
        vstd::arithmetic::div_mod::lemma_fundamental_div_mod_converse(-tick, tick_spacing, -k, 0);
    }
    assert(i == k);
    assert(k + 1 <= q) by (nonlinear_arith)
        requires tick == tick_spacing * k, tick + tick_spacing <= (MAX_TICK as int),
            (MAX_TICK as int) == tick_spacing * q + (MAX_TICK as int) % tick_spacing,
            (MAX_TICK as int) % tick_spacing < tick_spacing, tick_spacing >= 1;
    let m = if i + 256 < q { i + 256 } else { q };
    assert(start <= m * tick_spacing) by (nonlinear_arith)
        requires start == tick + tick_spacing, tick == tick_spacing * k, k + 1 <= m, tick_spacing >= 1;
}

pub proof fn lemma_bits_above_zero(v: u64, b: u64, j: u64)
    requires
        v >> b == 0,
        b <= j < 64,
    ensures
        !bit_set(v, j),
{
    assert((v >> b) == 0u64 && b <= j && j < 64 ==> (v >> j) & 1u64 == 0u64) by (bit_vector);
}

pub proof fn lemma_shift_step(v: u64, b: u64)
    requires
        b < 64,
    ensures
        ((v >> b) % 2 == 1) == bit_set(v, b),
        (v >> b) != 0 && (v >> b) % 2 == 0 ==> b < 63,
        b < 63 ==> (v >> b) >> 1u64 == v >> ((b + 1) as u64),
        (v >> b) != 0 && (v >> b) % 2 == 0 ==> ((v >> b) >> 1u64) != 0,
{
    assert(((v >> b) % 2 == 1) == ((v >> b) & 1u64 == 1u64)) by (bit_vector);
    assert(b < 64 && (v >> b) != 0 && (v >> b) % 2 == 0 ==> b < 63) by (bit_vector);
    assert(b < 63 ==> (v >> b) >> 1u64 == v >> ((b + 1) as u64)) by (bit_vector);
    assert((v >> b) != 0 && (v >> b) % 2 == 0 ==> ((v >> b) >> 1u64) != 0) by (bit_vector);
}


pub proof fn lemma_low_bits_zero(v: u64, b: u64, j: u64)
    requires
        v << ((63 - b) as u64) == 0,
        j <= b < 64,
    ensures
        !bit_set(v, j),
{
    assert(v << ((63 - b) as u64) == 0 && j <= b && b < 64 ==> (v >> j) & 1u64 == 0u64) by (bit_vector);
}

pub proof fn lemma_mask_step(v: u64, b: u64)
    requires
        b < 64,
    ensures
        (v & (1u64 << b) == 0) == !bit_set(v, b),
        v & (1u64 << b) == 0 && v << ((63 - b) as u64) != 0 ==> b > 0,
        b > 0 && v & (1u64 << b) == 0 && v << ((63 - b) as u64) != 0
            ==> v << ((63 - (b - 1)) as u64) != 0,
        b > 0 ==> (1u64 << b) >> 1u64 == 1u64 << ((b - 1) as u64),
{
    assert(b < 64 ==> ((v & (1u64 << b) == 0) == !((v >> b) & 1u64 == 1u64))) by (bit_vector);
    assert(b < 64 && v & (1u64 << b) == 0 && v << ((63 - b) as u64) != 0 ==> b > 0) by (bit_vector);
    assert(b < 64 && b > 0 && v & (1u64 << b) == 0 && v << ((63 - b) as u64) != 0
        ==> v << ((63 - (b - 1)) as u64) != 0) by (bit_vector);
    assert(b < 64 && b > 0 ==> (1u64 << b) >> 1u64 == 1u64 << ((b - 1) as u64)) by (bit_vector);
}

/// The downward search limit of a tick in range is not above it.
pub proof fn lemma_limit_below(tick: int, tick_spacing: int)
    requires
        tick_spacing >= 1,
        tick_usable(tick, tick_spacing),
    ensures
        spec_search_limit(tick, tick_spacing, false) <= tick,
{
    let q = (MAX_TICK as int) / tick_spacing;
    let i = tdiv(tick, tick_spacing);
    vstd::arithmetic::div_mod::lemma_fundamental_div_mod(tick, tick_spacing);
    vstd::arithmetic::div_mod::lemma_fundamental_div_mod((MAX_TICK as int), tick_spacing);
    let k = tick / tick_spacing;
    if tick < 0 {
        vstd::arithmetic::div_mod::lemma_fundamental_div_mod(-tick, tick_spacing);
        assert(-tick == tick_spacing * (-k)) by (nonlinear_arith) requires tick == tick_spacing * k + tick % tick_spacing, tick % tick_spacing == 0;
        vstd::arithmetic::div_mod::lemma_fundamental_div_mod_converse(-tick, tick_spacing, -k, 0);
    }
    assert(i == k);
    assert(-(MAX_TICK as int) <= tick);
    assert(-q <= k) by (nonlinear_arith)
        requires tick == tick_spacing * k, -(MAX_TICK as int) <= tick,
            (MAX_TICK as int) == tick_spacing * q + (MAX_TICK as int) % tick_spacing,
            0 <= (MAX_TICK as int) % tick_spacing < tick_spacing, tick_spacing >= 1;
    let m = if i - 256 > -q { i - 256 } else { -q };
    assert(m * tick_spacing <= tick) by (nonlinear_arith)
        requires m <= k, tick == tick_spacing * k, tick_spacing >= 1;
}


/// Above the last usable tick lies nothing: the upward search limit of a
/// tick within one spacing of the top is the tick itself.
pub proof fn lemma_last_tick_limit(tick: int, tick_spacing: int)
    requires
        tick_spacing >= 1,
        tick_usable(tick, tick_spacing),
        tick + tick_spacing > (MAX_TICK as int),
    ensures
        spec_search_limit(tick, tick_spacing, true) == tick,
{
    let q = (MAX_TICK as int) / tick_spacing;
    vstd::arithmetic::div_mod::lemma_fundamental_div_mod(tick, tick_spacing);
    vstd::arithmetic::div_mod::lemma_fundamental_div_mod((MAX_TICK as int), tick_spacing);
    let k = tick / tick_spacing;
    assert(tick >= 0) by (nonlinear_arith)
        requires tick + tick_spacing > (MAX_TICK as int), tick_spacing >= 1, tick == tick_spacing * k + tick % tick_spacing,
            tick % tick_spacing == 0, tick_spacing <= i32::MAX || tick_spacing > i32::MAX;
    assert(k == q) by (nonlinear_arith)
        requires tick == tick_spacing * k, tick <= (MAX_TICK as int), tick + tick_spacing > (MAX_TICK as int),
            (MAX_TICK as int) == tick_spacing * q + (MAX_TICK as int) % tick_spacing,
            0 <= (MAX_TICK as int) % tick_spacing < tick_spacing, tick_spacing >= 1;
    assert(tdiv(tick, tick_spacing) == k);
    assert(q * tick_spacing == tick) by (nonlinear_arith) requires tick == tick_spacing * k, k == q;
}

/// A chunk of a pool's bitmap.
#[derive(Clone, Copy, Debug, PartialEq, Eq, Structural)]
pub struct ChunkKey {
    pub chunk: u16,
    pub pool_key: PoolKey,
}

impl KeyEq for ChunkKey {
    fn key_eq(&self, other: &Self) -> (r: bool) {
        self == other
    }
}

pub struct Tickmap {
    pub bitmap: Mapping<ChunkKey, u64>,
}

impl Tickmap {
    pub open spec fn wf(&self) -> bool {
        self.bitmap.wf()
    }

    /// The stored chunk; a chunk never written is zero.
    pub open spec fn chunk_value(&self, chunk: u16, pool_key: PoolKey) -> u64 {
        let k = ChunkKey { chunk, pool_key };
        if self.bitmap@.dom().contains(k) { self.bitmap@[k] } else { 0 }
    }

    /// Whether the bit at a bitmap index is set.
    pub open spec fn index_set(&self, index: int, pool_key: PoolKey) -> bool {
        bit_set(self.chunk_value((index / 64) as u16, pool_key), (index % 64) as u64)
    }

    /// Whether a usable tick is initialized.
    pub open spec fn is_initialized(&self, tick: int, tick_spacing: int, pool_key: PoolKey) -> bool {
        self.index_set(bitmap_index(tick, tick_spacing), pool_key)
    }

    pub fn new() -> (r: Tickmap)
        ensures
            r.wf(),
            forall|c: u16, k: PoolKey| r.chunk_value(c, k) == 0,
    {
        Tickmap { bitmap: Mapping::new() }
    }

    fn read_chunk(&self, chunk: u16, pool_key: &PoolKey) -> (r: u64)
        requires
            self.wf(),
        ensures
            r == self.chunk_value(chunk, *pool_key),
    {
        match self.bitmap.get(&ChunkKey { chunk, pool_key: *pool_key }) {
            Some(v) => v,
            None => 0,
        }
    }

    /// Whether the usable tick is initialized.
    pub fn get(&self, tick: i32, tick_spacing: u32, pool_key: PoolKey) -> (r: bool)
        requires
            self.wf(),
            1 <= tick_spacing <= i32::MAX,
            tick_usable(tick as int, tick_spacing as int),
        ensures
            r == self.is_initialized(tick as int, tick_spacing as int, pool_key),
    {
        let (chunk, bit) = tick_to_position(tick, tick_spacing);
        let returned_chunk = self.read_chunk(chunk, &pool_key);
        get_bit_at_position(returned_chunk, bit) == 1
    }

    /// Marks the usable tick as initialized (`value`) or not. The tick must
    /// be in the other state. No other bit
    /// of any pool changes.
    pub fn flip(&mut self, value: bool, tick: i32, tick_spacing: u32, pool_key: PoolKey)
        requires
            old(self).wf(),
            1 <= tick_spacing <= i32::MAX,
            tick_usable(tick as int, tick_spacing as int),
            old(self).is_initialized(tick as int, tick_spacing as int, pool_key) == !value,
        ensures
            final(self).wf(),
            final(self).is_initialized(tick as int, tick_spacing as int, pool_key) == value,
            forall|i: int, k: PoolKey| 0 <= i <= 2 * (MAX_TICK as int) && (i != bitmap_index(tick as int, tick_spacing as int) || k != pool_key)
                ==> #[trigger] final(self).index_set(i, k) == old(self).index_set(i, k),
    {
        let (chunk, bit) = tick_to_position(tick, tick_spacing);
        let returned_chunk = self.read_chunk(chunk, &pool_key);
        let flipped = flip_bit_at_position(returned_chunk, bit);
        let ghost old_self = *old(self);
        self.bitmap.set(&ChunkKey { chunk, pool_key }, flipped);
        proof {
            let idx = bitmap_index(tick as int, tick_spacing as int);
            lemma_index_bound(tick as int, tick_spacing as int);
            assert forall|i: int, k: PoolKey| 0 <= i <= 2 * (MAX_TICK as int) && (i != idx || k != pool_key)
                implies #[trigger] self.index_set(i, k) == old_self.index_set(i, k) by {
                assert(i / 64 <= 6931);
                if (i / 64) as u16 == chunk && k == pool_key {
                    assert(i / 64 == idx / 64);
                    assert(i % 64 != idx % 64) by {
                        vstd::arithmetic::div_mod::lemma_fundamental_div_mod(i, 64);
                        vstd::arithmetic::div_mod::lemma_fundamental_div_mod(idx, 64);
                    }
                    assert(((i % 64) as u64) < 64);
                }
            }
        }
    }

    /// The nearest initialized tick above `tick`, looking no farther than the
    /// search limit upward; `None` if there is none there (or `tick` is the
    /// last usable tick). The tick must be a multiple of the spacing and
    /// not below the range.
    pub fn next_initialized(&self, tick: i32, tick_spacing: u32, pool_key: PoolKey) -> (r: Option<i32>)
        requires
            self.wf(),
            1 <= tick_spacing <= i32::MAX,
            (tick as int) % (tick_spacing as int) == 0,
            tick + tick_spacing >= -(MAX_TICK as int),
            tick + tick_spacing <= i32::MAX,
            tdiv(tick as int, tick_spacing as int) + (TICK_SEARCH_RANGE as int) <= i32::MAX,
        ensures
            tick + tick_spacing > (MAX_TICK as int) ==> r is None,
            r matches Some(t) ==> {
                &&& tick < t <= spec_search_limit(tick as int, tick_spacing as int, true)
                &&& tick_usable(t as int, tick_spacing as int)
                &&& self.is_initialized(t as int, tick_spacing as int, pool_key)
                &&& forall|u: int| tick < u < t && tick_usable(u, tick_spacing as int)
                    ==> !self.is_initialized(u, tick_spacing as int, pool_key)
            },
            r is None ==> forall|u: int| tick < u <= spec_search_limit(tick as int, tick_spacing as int, true)
                && tick_usable(u, tick_spacing as int) ==> !self.is_initialized(u, tick_spacing as int, pool_key),
    {
        let limit = get_search_limit(tick, tick_spacing, true);
        let ghost ts = tick_spacing as int;
        proof { lemma_search_limit_usable(tick as int, ts, true); }
        if tick + tick_spacing as i32 > MAX_TICK {
            proof {
                assert forall|u: int| tick < u <= limit && tick_usable(u, ts)
                    implies !self.is_initialized(u, ts, pool_key) by {
                    lemma_next_multiple(tick as int, u, ts);
                }
            }
            return None;
        }
        let start = tick + tick_spacing as i32;
        proof { vstd::arithmetic::div_mod::lemma_mod_add_multiples_vanish(tick as int, ts); }
        let (mut chunk, mut bit) = tick_to_position(start, tick_spacing);
        let (limiting_chunk, limiting_bit) = tick_to_position(limit, tick_spacing);
        let ghost lo = bitmap_index(start as int, ts);
        proof { assert(tick_usable(start as int, ts)); }
        let ghost hi = bitmap_index(limit as int, ts);
        proof {
            lemma_index_bound(start as int, ts);
            lemma_index_bound(limit as int, ts);
            lemma_limit_above_next(tick as int, ts);
            if start < limit {
                lemma_index_strictly_increasing(start as int, limit as int, ts);
            }
            vstd::arithmetic::div_mod::lemma_fundamental_div_mod(lo, 64);
            vstd::arithmetic::div_mod::lemma_fundamental_div_mod(hi, 64);
        }
        while chunk < limiting_chunk || (chunk == limiting_chunk && bit <= limiting_bit)
            invariant
                self.wf(),
                ts == tick_spacing as int,
                1 <= tick_spacing <= i32::MAX,
                start == tick + tick_spacing,
                tick_usable(start as int, ts),
                tick_usable(limit as int, ts),
                (tick as int) % ts == 0,
                limit == spec_search_limit(tick as int, ts, true),
                lo == bitmap_index(start as int, ts),
                lo <= hi,
                bit < 64,
                limiting_bit < 64,
                limiting_chunk <= 6931,
                hi == limiting_chunk * 64 + limiting_bit,
                hi == bitmap_index(limit as int, ts),
                lo <= chunk * 64 + bit,
                chunk <= limiting_chunk + 1,
                forall|j: int| lo <= j < chunk * 64 + bit ==> !#[trigger] self.index_set(j, pool_key),
            decreases (limiting_chunk + 1 - chunk) * 64 - bit,
        {
            let value = self.read_chunk(chunk, &pool_key);
            let mut shifted = value >> bit;
            if shifted != 0 {
                let ghost bit0 = bit;
                while shifted % 2 == 0
                    invariant
                        bit0 <= bit < 64,
                        shifted == value >> (bit as u64),
                        shifted != 0,
                        forall|b: u64| bit0 <= b < bit ==> !#[trigger] bit_set(value, b),
                    decreases 64 - bit,
                {
                    proof { lemma_shift_step(value, bit as u64); }
                    shifted = shifted >> 1;
                    bit = bit + 1;
                }
                proof { lemma_shift_step(value, bit as u64); }
                let ghost found = chunk * 64 + bit;
                proof {
                    assert forall|j: int| lo <= j < found implies !#[trigger] self.index_set(j, pool_key) by {
                        if j >= chunk * 64 + bit0 {
                            assert(j / 64 == chunk as int);
                            assert(j % 64 == j - chunk * 64);
                            assert(!bit_set(value, (j - chunk * 64) as u64));
                        }
                    }
                    assert(found / 64 == chunk as int);
                    assert(found % 64 == bit as int);
                }
                if chunk < limiting_chunk || (chunk == limiting_chunk && bit <= limiting_bit) {
                    let index: i32 = chunk as i32 * CHUNK_SIZE + bit as i32;
                    proof {
                        assert(found <= hi);
                        assert(lo <= found);
                        assert(index as int == found);
                        lemma_tick_of_index(found, ts);
                        lemma_tick_of_index(hi, ts);
                        lemma_tick_of_index(lo, ts);
                        lemma_index_of_usable(limit as int, ts);
                        lemma_index_of_usable(start as int, ts);
                        lemma_tick_of_index_mono(lo, found, ts);
                        lemma_tick_of_index_mono(found, hi, ts);
                        vstd::arithmetic::div_mod::lemma_fundamental_div_mod((MAX_TICK as int), ts);
                    }
                    proof {
                        assert(tick_of_index(found, ts) <= limit);
                        assert(tick_of_index(found, ts) >= start);
                        assert(tick_of_index(found, ts) == (index - (MAX_TICK as int) / ts) * ts);
                    }
                    let result = (index - MAX_TICK / tick_spacing as i32) * tick_spacing as i32;
                    proof {
                        let t = result as int;
                        assert(t == tick_of_index(found, ts));
                        assert(self.is_initialized(t, ts, pool_key));
                        assert forall|u: int| tick < u < t && tick_usable(u, ts)
                            implies !self.is_initialized(u, ts, pool_key) by {
                            lemma_next_multiple(tick as int, u, ts);
                            if u > start {
                                lemma_index_strictly_increasing(start as int, u, ts);
                            }
                            lemma_index_strictly_increasing(u, t, ts);
                            assert(bitmap_index(t, ts) == found);
                            assert(lo <= bitmap_index(u, ts) < found);
                            assert(!self.index_set(bitmap_index(u, ts), pool_key));
                        }
                    }
                    return Some(result);
                } else {
                    proof {
                        assert forall|u: int| tick < u <= limit && tick_usable(u, ts)
                            implies !self.is_initialized(u, ts, pool_key) by {
                            lemma_next_multiple(tick as int, u, ts);
                            if u > start {
                                lemma_index_strictly_increasing(start as int, u, ts);
                            }
                            if u < limit {
                                lemma_index_strictly_increasing(u, limit as int, ts);
                            }
                        }
                    }
                    return None;
                }
            }
            proof {
                assert forall|j: int| lo <= j < (chunk + 1) * 64 implies !#[trigger] self.index_set(j, pool_key) by {
                    if j >= chunk * 64 + bit {
                        assert(j / 64 == chunk as int);
                        assert(j % 64 == j - chunk * 64);
                        lemma_bits_above_zero(value, bit as u64, (j - chunk * 64) as u64);
                    }
                }
            }
            chunk = chunk + 1;
            bit = 0;
        }
        proof {
            assert forall|u: int| tick < u <= limit && tick_usable(u, ts)
                implies !self.is_initialized(u, ts, pool_key) by {
                lemma_next_multiple(tick as int, u, ts);
                if u > start {
                    lemma_index_strictly_increasing(start as int, u, ts);
                }
                if u < limit {
                    lemma_index_strictly_increasing(u, limit as int, ts);
                }
            }
        }
        None
    }

    /// The nearest initialized tick at or below `tick`, looking no farther
    /// than the search limit downward; `None` if there is none there. The
    /// tick must be usable.
    pub fn prev_initialized(&self, tick: i32, tick_spacing: u32, pool_key: PoolKey) -> (r: Option<i32>)
        requires
            self.wf(),
            1 <= tick_spacing <= i32::MAX,
            tick_usable(tick as int, tick_spacing as int),
        ensures
            r matches Some(t) ==> {
                &&& spec_search_limit(tick as int, tick_spacing as int, false) <= t <= tick
                &&& tick_usable(t as int, tick_spacing as int)
                &&& self.is_initialized(t as int, tick_spacing as int, pool_key)
                &&& forall|u: int| t < u <= tick && tick_usable(u, tick_spacing as int)
                    ==> !self.is_initialized(u, tick_spacing as int, pool_key)
            },
            r is None ==> forall|u: int| spec_search_limit(tick as int, tick_spacing as int, false) <= u <= tick
                && tick_usable(u, tick_spacing as int) ==> !self.is_initialized(u, tick_spacing as int, pool_key),
    {
        let ghost ts = tick_spacing as int;
        proof {
            vstd::arithmetic::div_mod::lemma_div_is_ordered(-(MAX_TICK as int), tick as int, 1);
            if tick >= 0 {
                vstd::arithmetic::div_mod::lemma_div_pos_is_pos(tick as int, ts);
            } else {
                vstd::arithmetic::div_mod::lemma_div_is_ordered_by_denominator(-(tick as int), 1, ts);
            }
        }
        let limit = get_search_limit(tick, tick_spacing, false);
        proof {
            lemma_search_limit_usable(tick as int, ts, false);
            lemma_limit_below(tick as int, ts);
        }
        let (mut chunk, mut bit) = tick_to_position(tick, tick_spacing);
        let (limiting_chunk, limiting_bit) = tick_to_position(limit, tick_spacing);
        let ghost lo = bitmap_index(limit as int, ts);
        let ghost hi = bitmap_index(tick as int, ts);
        proof {
            lemma_index_bound(tick as int, ts);
            lemma_index_bound(limit as int, ts);
            if limit < tick {
                lemma_index_strictly_increasing(limit as int, tick as int, ts);
            }
            vstd::arithmetic::div_mod::lemma_fundamental_div_mod(lo, 64);
            vstd::arithmetic::div_mod::lemma_fundamental_div_mod(hi, 64);
        }
        while chunk > limiting_chunk || (chunk == limiting_chunk && bit >= limiting_bit)
            invariant
                self.wf(),
                ts == tick_spacing as int,
                1 <= tick_spacing <= i32::MAX,
                tick_usable(tick as int, ts),
                tick_usable(limit as int, ts),
                limit == spec_search_limit(tick as int, ts, false),
                limit <= tick,
                lo == bitmap_index(limit as int, ts),
                hi == bitmap_index(tick as int, ts),
                lo == limiting_chunk * 64 + limiting_bit,
                lo <= hi,
                bit < 64,
                limiting_bit < 64,
                chunk <= 6931,
                chunk * 64 + bit <= hi,
                forall|j: int| chunk * 64 + bit < j <= hi ==> !#[trigger] self.index_set(j, pool_key),
            decreases chunk * 64 + bit,
        {
            let mut mask: u64 = 1u64 << bit;
            let value = self.read_chunk(chunk, &pool_key);
            // some bit at or below `bit` is set
            let sh: u8 = 63 - bit;
            proof {
                assert(mask == 1u64 << (bit as u64)) by (bit_vector) requires mask == 1u64 << bit;
                assert(value << sh == value << (sh as u64)) by (bit_vector);
                assert((sh as u64) == ((63 - bit) as u64));
            }
            if value << sh != 0 {
                let ghost bit0 = bit;
                while value & mask == 0
                    invariant
                        bit <= bit0 < 64,
                        mask == 1u64 << (bit as u64),
                        value << ((63 - bit) as u64) != 0,
                        forall|b: u64| bit < b <= bit0 ==> !#[trigger] bit_set(value, b),
                    decreases bit,
                {
                    proof { lemma_mask_step(value, bit as u64); }
                    mask = mask >> 1u64;
                    bit = bit - 1;
                }
                proof { lemma_mask_step(value, bit as u64); }
                let ghost found = chunk * 64 + bit;
                proof {
                    assert forall|j: int| found < j <= hi implies !#[trigger] self.index_set(j, pool_key) by {
                        if j <= chunk * 64 + bit0 {
                            assert(j / 64 == chunk as int);
                            assert(j % 64 == j - chunk * 64);
                            assert(!bit_set(value, (j - chunk * 64) as u64));
                        }
                    }
                    assert(found / 64 == chunk as int);
                    assert(found % 64 == bit as int);
                    assert(self.index_set(found, pool_key));
                }
                if chunk > limiting_chunk || (chunk == limiting_chunk && bit >= limiting_bit) {
                    let index: i32 = chunk as i32 * CHUNK_SIZE + bit as i32;
                    proof {
                        assert(lo <= found <= hi);
                        lemma_tick_of_index(found, ts);
                        lemma_index_of_usable(limit as int, ts);
                        lemma_index_of_usable(tick as int, ts);
                        lemma_tick_of_index_mono(lo, found, ts);
                        lemma_tick_of_index_mono(found, hi, ts);
                        vstd::arithmetic::div_mod::lemma_fundamental_div_mod((MAX_TICK as int), ts);
                        assert(tick_of_index(found, ts) <= tick);
                        assert(tick_of_index(found, ts) >= limit);
                        assert(tick_of_index(found, ts) == (index - (MAX_TICK as int) / ts) * ts);
                    }
                    let result = (index - MAX_TICK / tick_spacing as i32) * tick_spacing as i32;
                    proof {
                        let t = result as int;
                        assert(t == tick_of_index(found, ts));
                        assert forall|u: int| t < u <= tick && tick_usable(u, ts)
                            implies !self.is_initialized(u, ts, pool_key) by {
                            lemma_index_strictly_increasing(t, u, ts);
                            if u < tick {
                                lemma_index_strictly_increasing(u, tick as int, ts);
                            }
                            assert(bitmap_index(t, ts) == found);
                            assert(found < bitmap_index(u, ts) <= hi);
                        }
                    }
                    return Some(result);
                } else {
                    proof {
                        assert forall|u: int| limit <= u <= tick && tick_usable(u, ts)
                            implies !self.is_initialized(u, ts, pool_key) by {
                            if limit < u {
                                lemma_index_strictly_increasing(limit as int, u, ts);
                            }
                            if u < tick {
                                lemma_index_strictly_increasing(u, tick as int, ts);
                            }
                        }
                    }
                    return None;
                }
            }
            proof {
                assert forall|j: int| chunk * 64 <= j <= hi && j > chunk * 64 - 1 && j <= chunk * 64 + bit
                    implies !#[trigger] self.index_set(j, pool_key) by {
                    assert(j / 64 == chunk as int);
                    assert(j % 64 == j - chunk * 64);
                    lemma_low_bits_zero(value, bit as u64, (j - chunk * 64) as u64);
                }
            }
            if chunk == 0 {
                proof {
                    assert forall|u: int| limit <= u <= tick && tick_usable(u, ts)
                        implies !self.is_initialized(u, ts, pool_key) by {
                        if limit < u {
                            lemma_index_strictly_increasing(limit as int, u, ts);
                        }
                        if u < tick {
                            lemma_index_strictly_increasing(u, tick as int, ts);
                        }
                        assert(bitmap_index(u, ts) >= 0);
                    }
                }
                return None;
            }
            chunk = chunk - 1;
            bit = 63;
        }
        proof {
            assert forall|u: int| limit <= u <= tick && tick_usable(u, ts)
                implies !self.is_initialized(u, ts, pool_key) by {
                if limit < u {
                    lemma_index_strictly_increasing(limit as int, u, ts);
                }
                if u < tick {
                    lemma_index_strictly_increasing(u, tick as int, ts);
                }
            }
        }
        None
    }

    /// What the nearest tick in the swap's direction is: with `initialized`,
    /// the nearest initialized tick within the search limit (at or below
    /// `current_tick` for `x_to_y`, above it otherwise); without, the search
    /// limit itself, there being no initialized tick on the way.
    pub open spec fn closest_candidate(&self, x_to_y: bool, current_tick: int, tick_spacing: int,
        pool_key: PoolKey, index: int, initialized: bool) -> bool
    {
        let limit = spec_search_limit(current_tick, tick_spacing, !x_to_y);
        if initialized {
            &&& tick_usable(index, tick_spacing)
            &&& self.is_initialized(index, tick_spacing, pool_key)
            &&& (x_to_y ==> limit <= index <= current_tick
                && forall|u: int| index < u <= current_tick && tick_usable(u, tick_spacing)
                    ==> !self.is_initialized(u, tick_spacing, pool_key))
            &&& (!x_to_y ==> current_tick < index <= limit
                && forall|u: int| current_tick < u < index && tick_usable(u, tick_spacing)
                    ==> !self.is_initialized(u, tick_spacing, pool_key))
        } else {
            &&& index == limit
            &&& (x_to_y ==> forall|u: int| limit <= u <= current_tick && tick_usable(u, tick_spacing)
                    ==> !self.is_initialized(u, tick_spacing, pool_key))
            &&& (!x_to_y ==> forall|u: int| current_tick < u <= limit && tick_usable(u, tick_spacing)
                    ==> !self.is_initialized(u, tick_spacing, pool_key))
        }
    }

    /// Finds the nearest tick in the swap's direction (an initialized one, or
    /// else the search limit) and compares its price, as `sqrt_price_of`
    /// gives it, with the swap's price limit: the tick's price and the tick
    /// where the tick comes first, else the limit and `None`. A search whose
    /// limit is the current tick must find an initialized tick there (else
    /// the limit is reached).
    pub fn get_closer_limit<F: Fn(i32) -> SqrtPrice>(
        &self,
        sqrt_price_limit: SqrtPrice,
        x_to_y: bool,
        current_tick: i32,
        tick_spacing: u32,
        pool_key: PoolKey,
        sqrt_price_of: F,
    ) -> (r: (SqrtPrice, Option<(i32, bool)>))
        requires
            self.wf(),
            1 <= tick_spacing <= i32::MAX,
            tick_usable(current_tick as int, tick_spacing as int),
            forall|i: i32| sqrt_price_of.requires((i,)),
            !x_to_y ==> spec_search_limit(current_tick as int, tick_spacing as int, true) != current_tick,
            x_to_y && spec_search_limit(current_tick as int, tick_spacing as int, false) == current_tick
                ==> self.is_initialized(current_tick as int, tick_spacing as int, pool_key),
        ensures
            r.1 matches Some((index, initialized)) ==> {
                &&& self.closest_candidate(x_to_y, current_tick as int, tick_spacing as int, pool_key, index as int, initialized)
                &&& sqrt_price_of.ensures((index,), r.0)
                &&& (x_to_y ==> r.0.v > sqrt_price_limit.v)
                &&& (!x_to_y ==> r.0.v < sqrt_price_limit.v)
            },
            r.1 is None ==> {
                &&& r.0 == sqrt_price_limit
                &&& exists|index: i32, initialized: bool, p: SqrtPrice|
                    #[trigger] self.closest_candidate(x_to_y, current_tick as int, tick_spacing as int, pool_key, index as int, initialized)
                    && #[trigger] sqrt_price_of.ensures((index,), p)
                    && (x_to_y ==> p.v <= sqrt_price_limit.v)
                    && (!x_to_y ==> p.v >= sqrt_price_limit.v)
            },
    {
        proof {
            lemma_index_bound(current_tick as int, tick_spacing as int);
            if current_tick >= 0 {
                vstd::arithmetic::div_mod::lemma_div_is_ordered_by_denominator(current_tick as int, 1, tick_spacing as int);
                vstd::arithmetic::div_mod::lemma_div_pos_is_pos(current_tick as int, tick_spacing as int);
            } else {
                vstd::arithmetic::div_mod::lemma_div_is_ordered_by_denominator(-(current_tick as int), 1, tick_spacing as int);
                vstd::arithmetic::div_mod::lemma_div_pos_is_pos(-(current_tick as int), tick_spacing as int);
            }
        }
        let closest_tick_index = if x_to_y {
            self.prev_initialized(current_tick, tick_spacing, pool_key)
        } else {
            if tick_spacing as i32 > MAX_TICK - current_tick {
                // the last usable tick: its search limit is itself
                proof { lemma_last_tick_limit(current_tick as int, tick_spacing as int); }
                None
            } else {
                self.next_initialized(current_tick, tick_spacing, pool_key)
            }
        };
        match closest_tick_index {
            Some(index) => {
                let sqrt_price = sqrt_price_of(index);
                proof {
                    assert(self.closest_candidate(x_to_y, current_tick as int, tick_spacing as int, pool_key, index as int, true));
                    assert(sqrt_price_of.ensures((index,), sqrt_price));
                }
                if x_to_y && sqrt_price.v > sqrt_price_limit.v {
                    (sqrt_price, Some((index, true)))
                } else if !x_to_y && sqrt_price.v < sqrt_price_limit.v {
                    (sqrt_price, Some((index, true)))
                } else {
                    (sqrt_price_limit, None)
                }
            }
            None => {
                let index = get_search_limit(current_tick, tick_spacing, !x_to_y);
                proof {
                    lemma_search_limit_usable(current_tick as int, tick_spacing as int, !x_to_y);
                }
                let sqrt_price = sqrt_price_of(index);
                proof {
                    assert(self.closest_candidate(x_to_y, current_tick as int, tick_spacing as int, pool_key, index as int, false));
                    assert(sqrt_price_of.ensures((index,), sqrt_price));
                }
                if x_to_y && sqrt_price.v > sqrt_price_limit.v {
                    (sqrt_price, Some((index, false)))
                } else if !x_to_y && sqrt_price.v < sqrt_price_limit.v {
                    (sqrt_price, Some((index, false)))
                } else {
                    (sqrt_price_limit, None)
                }
            }
        }
    }
}

} // verus!
