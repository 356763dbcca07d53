//! A fee tier: the fee of a pool and the spacing of its usable ticks.
use vstd::prelude::*;
use crate::decimal::{Percentage, pow10, lemma_pow10_values};
use crate::errors::InvariantError;

verus! {

/// A pool's fee and the spacing of its usable ticks.
#[derive(Clone, Copy, Debug, PartialEq, Eq, Structural)]
pub struct FeeTier {
    pub fee: Percentage,
    pub tick_spacing: u32,
}

impl FeeTier {
    /// A fee of zero with a tick spacing of one.
    pub fn default() -> (r: FeeTier)
        ensures
            r.fee.v == 0,
            r.tick_spacing == 1,
    {
        FeeTier { fee: Percentage::new(0), tick_spacing: 1 }
    }

    /// A fee tier, where the spacing lies in `1..=100` and the fee is at most 100%.
    pub fn new(fee: Percentage, tick_spacing: u32) -> (r: Result<FeeTier, InvariantError>)
        ensures
            (tick_spacing == 0 || tick_spacing > 100) ==> r == Err::<FeeTier, InvariantError>(InvariantError::InvalidTickSpacing),
            (1 <= tick_spacing <= 100 && fee.v > pow10(12)) ==> r == Err::<FeeTier, InvariantError>(InvariantError::InvalidFee),
            (1 <= tick_spacing <= 100 && fee.v <= pow10(12)) ==> r == Ok::<FeeTier, InvariantError>(FeeTier { fee, tick_spacing }),
    {
        if tick_spacing == 0 || tick_spacing > 100 {
            return Err(InvariantError::InvalidTickSpacing);
        }
        proof { lemma_pow10_values(); }
        if fee.v > Percentage::from_integer(1).v {
            return Err(InvariantError::InvalidFee);
        }
        Ok(FeeTier { fee, tick_spacing })
    }
}

} // verus!
