//! What is written to and read from the database, as plain values.

pub mod entry;
pub mod script;
