//! What the protocol announces about positions and swaps.
use vstd::prelude::*;
use crate::address::Address;
use crate::decimal::{Liquidity, SqrtPrice, TokenAmount};
use crate::storage::pool_key::PoolKey;

verus! {

/// A position was opened.
#[derive(Clone, Copy, Debug, PartialEq, Eq, Structural)]
pub struct CreatePositionEvent {
    pub timestamp: u64,
    pub address: Address,
    pub pool: PoolKey,
    pub liquidity: Liquidity,
    pub lower_tick: i32,
    pub upper_tick: i32,
    pub current_sqrt_price: SqrtPrice,
}

/// A position was closed.
#[derive(Clone, Copy, Debug, PartialEq, Eq, Structural)]
pub struct RemovePositionEvent {
    pub timestamp: u64,
    pub address: Address,
    pub pool: PoolKey,
    pub liquidity: Liquidity,
    pub lower_tick: i32,
    pub upper_tick: i32,
    pub current_sqrt_price: SqrtPrice,
}

/// A swap crossed the ticks at `indexes`.
#[derive(Clone, Debug)]
pub struct CrossTickEvent {
    pub timestamp: u64,
    pub address: Address,
    pub pool: PoolKey,
    pub indexes: Vec<i32>,
}

/// A swap took place.
#[derive(Clone, Copy, Debug, PartialEq, Eq, Structural)]
pub struct SwapEvent {
    pub timestamp: u64,
    pub address: Address,
    pub pool: PoolKey,
    pub amount_in: TokenAmount,
    pub amount_out: TokenAmount,
    pub fee: TokenAmount,
    pub start_sqrt_price: SqrtPrice,
    pub target_sqrt_price: SqrtPrice,
    pub x_to_y: bool,
}

} // verus!
