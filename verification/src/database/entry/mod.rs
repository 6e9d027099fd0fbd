//! The entries of the database.

pub mod coin_account;
pub mod platform_connection;

use vstd::prelude::*;

verus! {

/// An entry that stands for nothing: writing it changes no table.
#[derive(Debug, Clone, Copy, PartialEq, Eq, Structural)]
pub struct Dud {}

} // verus!
