//! The platforms from which transactions are synchronised.

pub mod blockchain;
pub mod exchange;
