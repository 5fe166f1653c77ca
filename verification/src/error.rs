//! The errors that the writer handle reports.
use vstd::prelude::*;

verus! {

/// Why a commit was refused.
#[derive(Debug, PartialEq, Eq, Structural)]
pub enum CommitError {
    /// More elements were to be committed than are prepared.
    NotEnoughPrepared { prepared: usize },
}

/// Why a prepare was refused.
#[derive(Debug, PartialEq, Eq, Structural)]
pub enum PrepareError {
    /// An earlier prepared region still holds `amount` uncommitted elements.
    UncommitedData { amount: usize },
    /// No contiguous free region is large enough; `max_available` is the largest one.
    NoRoom { max_available: usize },
}

} // verus!
