use vstd::prelude::*;

pub mod uint;
pub mod decimal;
pub mod decimal_ops;
pub mod errors;
pub mod address;
pub mod storage;
pub mod collections;
pub mod erc20;
pub mod consts;
pub mod events;

verus! {
} // verus!
