//! The failure kinds of the data-access layer.
//!
//! Every failure is returned to the immediate caller as a typed result; this
//! layer performs no silent retries and no automatic reconnection, and its
//! verified functions never panic.

use vstd::prelude::*;

verus! {

/// Errors that may happen while connecting to the database.
#[derive(Clone, Copy, Debug, PartialEq, Eq, Structural)]
pub enum ConnectError {
    /// The connection string has no scheme part (nothing before the first
    /// `:`, or no `:` at all).
    MalformedUrl,
    /// No driver is registered for the scheme of the connection string.
    UnsupportedScheme,
}

/// Errors that may happen while migrating the database.
#[derive(Clone, Copy, Debug, PartialEq, Eq, Structural)]
pub enum MigrateError {
    /// The applied-version ledger is inconsistent with the known script set:
    /// it records a version that is not known, or records a higher version
    /// while a lower one is missing.
    VersionConflict,
    /// A migration script failed to execute; the ledger stays at the last
    /// successfully applied version.
    ScriptFailed,
}

/// Errors that may happen while getting a new service from the pool.
#[derive(Clone, Copy, Debug, PartialEq, Eq, Structural)]
pub enum NewServiceError {
    /// The pool cannot hand out a connection any more.  The in-memory pool
    /// of this crate queues callers instead of refusing them and never
    /// closes, so its factory never returns this; an adapter over a
    /// networked backend maps its pool errors here.
    PoolClosed,
}

/// Errors that may happen while querying.
#[derive(Clone, Copy, Debug, PartialEq, Eq, Structural)]
pub enum QueryError {
    /// The statement could not be executed: the table does not exist, or the
    /// backend cannot store another row.
    Execute,
    /// A schema constraint rejected the statement (duplicate username).
    Constraint,
    /// A result row does not map onto the entity struct field for field.
    Decode,
}

} // verus!
