//! The protocol's administrative state.
use vstd::prelude::*;
use crate::address::Address;
use crate::decimal::Percentage;

verus! {

/// Who administers the protocol and what share of fees it takes.
#[derive(Clone, Copy, Debug, PartialEq, Eq, Structural)]
pub struct State {
    pub admin: Address,
    pub protocol_fee: Percentage,
}

/// The protocol's configuration: its administrator and its share of fees.
#[derive(Clone, Copy, Debug, PartialEq, Eq, Structural)]
pub struct InvariantConfig {
    pub admin: Address,
    pub protocol_fee: Percentage,
}

} // verus!
