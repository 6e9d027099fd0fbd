//! The errors of the library.

use vstd::prelude::*;

verus! {

/// Everything that can go wrong in the library or in the collaborators around it.
#[derive(Debug)]
pub enum CryptfolioError {
    /// The platform is already staged for connection.
    PlatformAlreadyExists,
    /// The coin already exists; carries its code and its name.
    CoinAlreadyExists(String, String),
    /// No connection to the database at the given path.
    DatabaseConnectionFailed(String),
    /// A database query failed.
    DatabaseQueryFailed(String),
    /// A database write failed.
    DatabaseWriteError(String),
    /// The Coinbase API reported an error.
    CoinbaseAPIError(String),
    /// The Coinbase Pro API reported an error.
    CoinbaseProAPIError(String),
    /// The Solana API reported an error.
    SolanaAPIError(String),
    /// A client could not be synchronised.
    SyncError(String),
    /// A date matched none of the accepted formats.
    DateTimeParseError(String),
    /// The ledger holds no open lot.
    EmptyLedger,
    /// More was asked of a lot than it still holds.
    InsufficientLotQuantity,
    /// A sell exceeded everything bought before it; carries the unmatched quantity.
    OversoldQuantity(u64),
    /// The record was finalized before.
    PreconditionViolated,
    /// An amount lies beyond what the record can account for.
    AmountOutOfRange,
}

} // verus!
