//! Exchanges.

pub mod coinbase;
pub mod coinbase_pro;
