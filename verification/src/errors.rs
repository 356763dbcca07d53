//! The protocol's errors and the codes with which the contract reverts on them.
use vstd::prelude::*;

verus! {

#[derive(Clone, Copy, Debug, PartialEq, Eq, Structural)]
pub enum InvariantError {
    NotAdmin,
    NotFeeReceiver,
    PoolAlreadyExist,
    PoolNotFound,
    TickAlreadyExist,
    InvalidTickIndexOrTickSpacing,
    PositionNotFound,
    TickNotFound,
    FeeTierNotFound,
    PoolKeyNotFound,
    AmountIsZero,
    WrongLimit,
    PriceLimitReached,
    NoGainSwap,
    InvalidTickSpacing,
    FeeTierAlreadyExist,
    PoolKeyAlreadyExist,
    UnauthorizedFeeReceiver,
    ZeroLiquidity,
    TransferError,
    TokensAreSame,
    AmountUnderMinimumAmountOut,
    InvalidFee,
    NotEmptyTickDeinitialization,
    InvalidInitTick,
    InvalidInitSqrtPrice,
}

/// Failures of the arithmetic inside a state update.
#[derive(Clone, Copy, Debug, PartialEq, Eq, Structural)]
pub enum CalcError {
    /// A sum or product does not fit its type.
    Overflow,
    /// A difference would be negative.
    Underflow,
    /// A position with no liquidity is updated with no liquidity.
    EmptyPositionPokes,
    /// More liquidity is removed from a position than it holds.
    InsufficientLiquidity,
    /// A tick would hold more liquidity than allowed, or less than none.
    InvalidTickLiquidity,
    /// A division by zero.
    DivisionByZero,
}

/// The revert code of each error, in the order the contract declares them.
pub open spec fn spec_error_code(e: InvariantError) -> u16 {
    match e {
        InvariantError::NotAdmin => 0,
        InvariantError::NotFeeReceiver => 1,
        InvariantError::PoolAlreadyExist => 2,
        InvariantError::PoolNotFound => 3,
        InvariantError::TickAlreadyExist => 4,
        InvariantError::InvalidTickIndexOrTickSpacing => 5,
        InvariantError::PositionNotFound => 6,
        InvariantError::TickNotFound => 7,
        InvariantError::FeeTierNotFound => 8,
        InvariantError::PoolKeyNotFound => 9,
        InvariantError::AmountIsZero => 10,
        InvariantError::WrongLimit => 11,
        InvariantError::PriceLimitReached => 12,
        InvariantError::NoGainSwap => 13,
        InvariantError::InvalidTickSpacing => 14,
        InvariantError::FeeTierAlreadyExist => 15,
        InvariantError::PoolKeyAlreadyExist => 16,
        InvariantError::UnauthorizedFeeReceiver => 17,
        InvariantError::ZeroLiquidity => 18,
        InvariantError::TransferError => 19,
        InvariantError::TokensAreSame => 20,
        InvariantError::AmountUnderMinimumAmountOut => 21,
        InvariantError::InvalidFee => 22,
        InvariantError::NotEmptyTickDeinitialization => 23,
        InvariantError::InvalidInitTick => 24,
        InvariantError::InvalidInitSqrtPrice => 25,
    }
}

impl InvariantError {
    /// The code with which the contract reverts on this error.
    pub fn code(&self) -> (r: u16)
        ensures
            r == spec_error_code(*self),
    {
        match self {
            InvariantError::NotAdmin => 0,
            InvariantError::NotFeeReceiver => 1,
            InvariantError::PoolAlreadyExist => 2,
            InvariantError::PoolNotFound => 3,
            InvariantError::TickAlreadyExist => 4,
            InvariantError::InvalidTickIndexOrTickSpacing => 5,
            InvariantError::PositionNotFound => 6,
            InvariantError::TickNotFound => 7,
            InvariantError::FeeTierNotFound => 8,
            InvariantError::PoolKeyNotFound => 9,
            InvariantError::AmountIsZero => 10,
            InvariantError::WrongLimit => 11,
            InvariantError::PriceLimitReached => 12,
            InvariantError::NoGainSwap => 13,
            InvariantError::InvalidTickSpacing => 14,
            InvariantError::FeeTierAlreadyExist => 15,
            InvariantError::PoolKeyAlreadyExist => 16,
            InvariantError::UnauthorizedFeeReceiver => 17,
            InvariantError::ZeroLiquidity => 18,
            InvariantError::TransferError => 19,
            InvariantError::TokensAreSame => 20,
            InvariantError::AmountUnderMinimumAmountOut => 21,
            InvariantError::InvalidFee => 22,
            InvariantError::NotEmptyTickDeinitialization => 23,
            InvariantError::InvalidInitTick => 24,
            InvariantError::InvalidInitSqrtPrice => 25,
        }
    }
}

/// Distinct errors revert with distinct codes.
pub proof fn lemma_error_codes_distinct(a: InvariantError, b: InvariantError)
    ensures
        spec_error_code(a) == spec_error_code(b) ==> a == b,
{
}

/// The value of an `Ok`; an error becomes the code with which the contract
/// reverts (the revert itself is the caller's).
pub fn unwrap_invariant_result<T>(result: Result<T, InvariantError>) -> (r: Result<T, u16>)
    ensures
        match result {
            Ok(v) => r == Ok::<T, u16>(v),
            Err(e) => r == Err::<T, u16>(spec_error_code(e)),
        },
{
    match result {
        Ok(v) => Ok(v),
        Err(e) => Err(e.code()),
    }
}

} // verus!
