//! Blockchains.

pub mod solana;
