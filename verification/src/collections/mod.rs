pub mod mapping;
pub mod pools;
pub mod ticks;
pub mod fee_tiers;
pub mod positions;
