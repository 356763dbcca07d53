//! The key of a pool: its two tokens, ordered, and its fee tier.
use vstd::prelude::*;
use crate::address::{Address, AddressKind};
use crate::errors::InvariantError;
use crate::storage::fee_tier::FeeTier;

verus! {

/// Identifies a pool: its two tokens, the lower address first, and its fee tier.
#[derive(Clone, Copy, Debug, PartialEq, Eq, Structural)]
pub struct PoolKey {
    pub token_x: Address,
    pub token_y: Address,
    pub fee_tier: FeeTier,
}

impl PoolKey {
    pub open spec fn default_spec() -> PoolKey {
        let zero = Address { kind: AddressKind::Contract, h0: 0, h1: 0, h2: 0, h3: 0 };
        PoolKey { token_x: zero, token_y: zero, fee_tier: FeeTier { fee: crate::decimal::Percentage { v: 0 }, tick_spacing: 1 } }
    }
}

/// The key that `PoolKey::new` makes of two distinct tokens.
pub open spec fn spec_pool_key(token_0: Address, token_1: Address, fee_tier: FeeTier) -> PoolKey {
    if token_0.spec_lt(token_1) {
        PoolKey { token_x: token_0, token_y: token_1, fee_tier }
    } else {
        PoolKey { token_x: token_1, token_y: token_0, fee_tier }
    }
}

impl PoolKey {
    /// The key with both tokens the zero contract and the default fee tier.
    pub fn default() -> (r: PoolKey)
        ensures
            r == PoolKey::default_spec(),
    {
        let zero = Address { kind: AddressKind::Contract, h0: 0, h1: 0, h2: 0, h3: 0 };
        PoolKey { token_x: zero, token_y: zero, fee_tier: FeeTier::default() }
    }

    /// The key of a pool of two distinct tokens; the lower address becomes token x.
    pub fn new(token_0: Address, token_1: Address, fee_tier: FeeTier) -> (r: Result<PoolKey, InvariantError>)
        ensures
            token_0 == token_1 ==> r == Err::<PoolKey, InvariantError>(InvariantError::TokensAreSame),
            token_0 != token_1 ==> r == Ok::<PoolKey, InvariantError>(spec_pool_key(token_0, token_1, fee_tier)),
    {
        if token_0 == token_1 {
            return Err(InvariantError::TokensAreSame);
        }
        if token_0.lt(&token_1) {
            Ok(PoolKey { token_x: token_0, token_y: token_1, fee_tier })
        } else {
            Ok(PoolKey { token_x: token_1, token_y: token_0, fee_tier })
        }
    }
}

/// The key of a pool of two distinct tokens, as `PoolKey::new` makes it.
pub fn new_pool_key(token_0: Address, token_1: Address, fee_tier: FeeTier) -> (r: Result<PoolKey, InvariantError>)
    ensures
        token_0 == token_1 ==> r == Err::<PoolKey, InvariantError>(InvariantError::TokensAreSame),
        token_0 != token_1 ==> r == Ok::<PoolKey, InvariantError>(spec_pool_key(token_0, token_1, fee_tier)),
{
    PoolKey::new(token_0, token_1, fee_tier)
}

/// The order of the two tokens does not matter: both orders give the same
/// key, and in it token x is below token y.
pub proof fn lemma_pool_key_symmetric(token_0: Address, token_1: Address, fee_tier: FeeTier)
    requires
        token_0 != token_1,
    ensures
        spec_pool_key(token_0, token_1, fee_tier) == spec_pool_key(token_1, token_0, fee_tier),
        spec_pool_key(token_0, token_1, fee_tier).token_x.spec_lt(spec_pool_key(token_0, token_1, fee_tier).token_y),
{
}

} // verus!
