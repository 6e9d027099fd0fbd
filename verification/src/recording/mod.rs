//! The realized-gain engine.
//!
//! - [`lot_ledger`]: the open lots, oldest first.
//! - [`matching`]: one sale against the ledger, and all sales in their order.
//! - [`tax_record`]: the category and the obligation of one disposal.
//! - [`coin_record`]: the record of an asset and its snapshot.
//! - [`conservation`] and [`laws`]: what holds of every matching and of every
//!   snapshot.
//! - [`transaction`] and [`sums`]: the events, and sums over sequences.

pub mod coin_record;
pub mod conservation;
pub mod laws;
pub mod lot_ledger;
pub mod matching;
pub mod sums;
pub mod tax_record;
pub mod transaction;
