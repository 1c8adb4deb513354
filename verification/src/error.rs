//! What can go wrong in the store.

use vstd::prelude::*;

verus! {

/// The error type of `rusqlite`, carried through unread.
#[verifier::external_type_specification]
#[verifier::external_body]
pub struct ExSqlError(rusqlite::Error);

/// Errors surfaced from [`crate::Permissions`].
#[derive(Debug)]
pub enum PermError {
    /// Opening or tuning the database failed.
    Open { source: rusqlite::Error },
    /// Applying the migration to `version` failed; version 0 stands for the
    /// bookkeeping that comes before the first migration.
    Migrate { source: rusqlite::Error, version: i64 },
    /// A statement on the open store failed.
    Query { source: rusqlite::Error },
    /// A holder of the lock around a shared store panicked.
    Poisoned,
    /// A row holds a decision other than `allow` and `deny`.
    UnknownDecision { decision: String },
    /// A row holds a capability key that stands for no capability.
    UnknownCapability { capability: String },
}

/// A failed statement is a [`PermError::Query`].
impl From<rusqlite::Error> for PermError {
    fn from(source: rusqlite::Error) -> (r: Self) {
        PermError::Query { source }
    }
}

impl vstd::std_specs::convert::FromSpecImpl<rusqlite::Error> for PermError {
    open spec fn obeys_from_spec() -> bool {
        true
    }

    open spec fn from_spec(source: rusqlite::Error) -> PermError {
        PermError::Query { source }
    }
}

} // verus!
