pub mod fee_tier;
pub mod pool_key;
pub mod tickmap;
pub mod pool;
pub mod tick;
pub mod position;
pub mod state;
pub mod oracle;
