//! Failures of the storage behind a repository.
use vstd::prelude::*;

verus! {

/// The storage behind a ledger or an account store could not read or write.
/// The engine hands such a failure on as it is.
#[derive(Debug, PartialEq, Eq)]
pub struct StorageError {
    /// What the storage said.
    pub message: String,
}

} // verus!
