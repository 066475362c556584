//! The error taxonomy of the data-access layer.

use vstd::prelude::*;

verus! {

/// A typed failure returned by every `DataStore` operation.
///
/// `Rusqlite` wraps an error of the storage engine; the other variants carry
/// the name or the (decimal) id of the entity that did not resolve, that
/// already existed, or that was in an invalid state for the request.
#[derive(Debug)]
pub enum DtError {
    Rusqlite(rusqlite::Error),
    ProjectNotFound(String),
    ProjectAlreadyExists(String),
    ActivityTypeNotFound(String),
    ActivityTypeAlreadyExists(String),
    ActivityTypeInUse(String),
    RepoNotFound(String),
    ActivityNotFound(String),
    RunningActivityAlreadyExists(String),
    CountNotFound(String),
    InvalidState(String),
}

} // verus!
