//! Error types of the routing core.

use vstd::prelude::*;

verus! {

/// Failures of the routing layer.
#[derive(Debug)]
pub enum RouterError {
    /// No solver is available for routing.
    NoSolverAvailable,
    /// No solver with this identifier is known.
    SolverNotFound(String),
    /// The configuration is invalid; the payload says why.
    InvalidConfig(String),
}

/// Failures of the surrounding ledger layer.
#[derive(Debug)]
pub enum SetuError {
    /// A storage operation failed.
    StorageError(String),
    /// Something was not found.
    NotFound(String),
    /// Data failed validation.
    InvalidData(String),
    /// A transfer was rejected.
    InvalidTransfer(String),
    /// Any other failure.
    Other(String),
}

/// A result over the ledger layer's error type.
pub type SetuResult<T> = Result<T, SetuError>;

} // verus!
