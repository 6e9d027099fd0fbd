//! Cost-basis accounting for one asset, and the plain values around it.
//!
//! A [`recording::coin_record::CoinRecord`] is filled with the purchases and
//! the sales of one asset and then updated once. The update matches every sale
//! against the oldest open lots, makes one tax record for every part of a sale
//! that was matched to one lot, and sets the figures of the record: the units
//! still held, their cost, the realized gains and the fees.
//!
//! # Units
//!
//! The library counts in whole numbers and never rounds but where it says so.
//! The caller fixes two units once, one for prices and one for quantities (a
//! cent and a hundred-millionth of a coin, say).
//!
//! - A price is a number of price units for one quantity unit.
//! - An amount (a cost, the proceeds of a sale, a fee, a gain) is counted in
//!   the product of the two units: a price times a quantity is an amount.
//! - A tax obligation is counted in hundredths of the unit of an amount: it is
//!   a gain times a rate in percent.
//! - The average cost is a price, rounded down.
//!
//! # Modules
//!
//! - [`recording`]: the ledger of open lots, the matching, the tax records and
//!   the record of an asset, with the laws that hold of them.
//! - [`util`]: dates and the time between them.
//! - [`database`]: the entries that are stored, and the rows from which a
//!   record is made.
//! - [`platform`]: the credentials of the platforms and how their transactions
//!   are read.
//! - [`error`]: the errors.

pub mod database;
pub mod error;
pub mod platform;
pub mod recording;
pub mod util;
