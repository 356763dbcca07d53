//! A pool's price history.
use vstd::prelude::*;

verus! {

/// One observation: a price (the square root, 24 decimal places) at a time.
#[derive(Clone, Copy, Debug, PartialEq, Eq, Structural)]
pub struct Record {
    pub timestamp: u64,
    pub price: u128,
}

/// A ring of observations: `head` is the latest, `amount` the number
/// recorded so far, `size` the capacity.
#[derive(Clone, Debug)]
pub struct Oracle {
    pub data: Vec<Record>,
    pub head: u16,
    pub amount: u16,
    pub size: u16,
}

} // verus!
