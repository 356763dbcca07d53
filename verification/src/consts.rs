//! The protocol's global limits and the bitmap arithmetic that clients use.
use vstd::prelude::*;
use crate::storage::tickmap::{CHUNK_SIZE, MAX_TICK, TICK_SEARCH_RANGE};

verus! {

pub const MAX_SQRT_PRICE: u128 = 65535383934512647000000000000;
pub const MIN_SQRT_PRICE: u128 = 15258932000000000000;

/// The square root of the highest price (24 decimal places).
pub fn get_global_max_sqrt_price() -> (r: u128)
    ensures
        r == MAX_SQRT_PRICE,
{
    MAX_SQRT_PRICE
}

/// The square root of the lowest price (24 decimal places).
pub fn get_global_min_sqrt_price() -> (r: u128)
    ensures
        r == MIN_SQRT_PRICE,
{
    MIN_SQRT_PRICE
}

/// How many usable ticks a search for an initialized tick covers.
pub fn get_tick_search_range() -> (r: i32)
    ensures
        r == TICK_SEARCH_RANGE,
{
    TICK_SEARCH_RANGE
}

/// The number of ticks in a chunk of the bitmap.
pub fn get_chunk_size() -> (r: i32)
    ensures
        r == CHUNK_SIZE,
{
    CHUNK_SIZE
}

/// `a / b` rounded toward zero, as Rust's integer division does.
pub open spec fn trunc_quot(a: int, b: int) -> int {
    let q = (if a >= 0 { a } else { -a }) / (if b >= 0 { b } else { -b });
    if (a >= 0) == (b >= 0) { q } else { -q }
}

/// Rust's division of `a` by `b`.
fn trunc_div(a: i32, b: i32) -> (r: i32)
    requires
        b != 0,
        !(a == i32::MIN && b == -1),
    ensures
        r == trunc_quot(a as int, b as int),
{
    let ua: i64 = if a >= 0 { a as i64 } else { -(a as i64) };
    let ub: i64 = if b >= 0 { b as i64 } else { -(b as i64) };
    let q: i64 = ua / ub;
    proof {
        vstd::arithmetic::div_mod::lemma_div_pos_is_pos(ua as int, ub as int);
        vstd::arithmetic::div_mod::lemma_div_is_ordered_by_denominator(ua as int, 1, ub as int);
        if ub >= 2 {
            vstd::arithmetic::div_mod::lemma_div_is_ordered_by_denominator(ua as int, 2, ub as int);
        }
    }
    let r: i64 = if (a >= 0) == (b >= 0) { q } else { -q };
    r as i32
}

/// The chunk of the bitmap that holds `tick` (its index from the lowest
/// tick, divided by the spacing, truncated), cut to 16 bits. The spacing
/// must be nonzero and the sum must fit.
pub fn tick_to_chunk(tick: i32, tick_spacing: i32) -> (r: u16)
    requires
        tick_spacing != 0,
        tick + MAX_TICK <= i32::MAX,
    ensures
        r == (trunc_quot(trunc_quot(tick + MAX_TICK, tick_spacing as int), CHUNK_SIZE as int) as u16),
{
    let bitmap_index = trunc_div(tick + MAX_TICK, tick_spacing);
    let chunk: u16 = trunc_div(bitmap_index, CHUNK_SIZE) as u16;
    chunk
}

/// The bit within its chunk that stands for `tick`: the remainder (with the
/// sign of the index) of its bitmap index by the chunk size, cut to 8 bits.
pub fn tick_to_pos(tick: i32, tick_spacing: i32) -> (r: u8)
    requires
        tick_spacing != 0,
        tick + MAX_TICK <= i32::MAX,
    ensures
        ({
            let index = trunc_quot(tick + MAX_TICK, tick_spacing as int);
            r == ((index - CHUNK_SIZE * trunc_quot(index, CHUNK_SIZE as int)) as u8)
        }),
{
    let bitmap_index = trunc_div(tick + MAX_TICK, tick_spacing);
    let q = trunc_div(bitmap_index, CHUNK_SIZE);
    let pos: u8 = (bitmap_index - CHUNK_SIZE * q) as u8;
    pos
}

/// The highest usable tick for a spacing: `MAX_TICK` rounded toward zero
/// to a multiple of the spacing.
fn get_max_tick(tick_spacing: i32) -> (r: i32)
    requires
        tick_spacing != 0,
    ensures
        r == trunc_quot(MAX_TICK as int, tick_spacing as int) * tick_spacing,
        0 <= r <= MAX_TICK,
{
    let q = trunc_div(MAX_TICK, tick_spacing);
    proof {
        let d: int = if tick_spacing >= 0 { tick_spacing as int } else { -(tick_spacing as int) };
        vstd::arithmetic::div_mod::lemma_fundamental_div_mod(MAX_TICK as int, d);
        vstd::arithmetic::div_mod::lemma_mod_bound(MAX_TICK as int, d);
        vstd::arithmetic::div_mod::lemma_div_pos_is_pos(MAX_TICK as int, d);
        assert(q * tick_spacing == (MAX_TICK as int / d) * d) by (nonlinear_arith)
            requires
                q == (if tick_spacing >= 0 { MAX_TICK as int / d } else { -(MAX_TICK as int / d) }),
                d == (if tick_spacing >= 0 { tick_spacing as int } else { -(tick_spacing as int) });
    }
    q * tick_spacing
}

/// The last chunk of the bitmap that a spacing uses: the chunk of the
/// highest usable tick.
pub fn get_max_chunk(tick_spacing: u32) -> (r: u32)
    requires
        tick_spacing != 0,
    ensures
        ({
            let s = tick_spacing as i32;
            let max_tick = trunc_quot(MAX_TICK as int, s as int) * s;
            r == (trunc_quot(trunc_quot(max_tick + MAX_TICK, s as int), CHUNK_SIZE as int) as u32)
        }),
{
    let s = tick_spacing as i32;
    assert(s != 0) by (bit_vector)
        requires
            tick_spacing != 0,
            s == tick_spacing as i32;
    let max_tick = get_max_tick(s);
    let max_bitmap_index = trunc_div(max_tick + MAX_TICK, s);
    let max_chunk_index = trunc_div(max_bitmap_index, CHUNK_SIZE);
    max_chunk_index as u32
}

} // verus!
