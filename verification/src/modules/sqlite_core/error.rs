//! Errors reported by the client, and the text each one shows to
//! JavaScript callers.

use vstd::prelude::*;
use vstd::string::StringExecFns;

use crate::modules::sqlite_core::text::{decimal, push_decimal};

verus! {

/// An error of the SQLite client.
///
/// `Worker` carries the error object that the worker itself replied with
/// (a reply whose `type` is `"error"`); the other variants are raised by the
/// client before or after talking to the worker.
pub enum DbError<V> {
    /// A statement was issued while no database is open.
    NotOpened,
    /// A batch row handed over from JavaScript was not an array.
    RowNotArray,
    /// A pool connection's `open` reply held no `result` object.
    NoDatabaseId,
    /// No pool connection became free within the pool's timeout (in ms).
    ConnectionTimeout(u32),
    /// The worker's ready channel was dropped before it signalled.
    WorkerNeverReady,
    /// The worker did not signal readiness in time.
    WorkerInitTimeout,
    /// A pool worker did not signal readiness in time.
    WorkerReadyTimeout,
    /// The singleton worker slot was already filled.
    WorkerAlreadyInitialized,
    /// The error reply of the worker, passed through unchanged.
    Worker(V),
}

/// The message text of each client error; `None` for a worker reply, which
/// is handed back as the worker sent it.
pub open spec fn error_message<V>(e: DbError<V>) -> Option<Seq<char>> {
    match e {
        DbError::NotOpened => Some("Database not opened. Call open() first."@),
        DbError::RowNotArray => Some("Each row must be an array"@),
        DbError::NoDatabaseId => Some("Could not extract database ID"@),
        DbError::ConnectionTimeout(ms) => Some(
            "Connection timeout after "@ + decimal(ms as nat) + "ms"@,
        ),
        DbError::WorkerNeverReady => Some("Worker never ready"@),
        DbError::WorkerInitTimeout => Some("Worker initialization timeout"@),
        DbError::WorkerReadyTimeout => Some("Worker ready timeout"@),
        DbError::WorkerAlreadyInitialized => Some("Worker already initialized"@),
        DbError::Worker(_) => None,
    }
}

impl<V> DbError<V> {
    /// The text that JavaScript callers receive for this error, or `None`
    /// when the error is the worker's own reply.
    pub fn message(&self) -> (m: Option<String>)
        ensures
            m is Some == error_message(*self) is Some,
            m matches Some(s) ==> error_message(*self) == Some(s@),
    {
        match self {
            DbError::NotOpened => Some(String::from_str("Database not opened. Call open() first.")),
            DbError::RowNotArray => Some(String::from_str("Each row must be an array")),
            DbError::NoDatabaseId => Some(String::from_str("Could not extract database ID")),
            DbError::ConnectionTimeout(ms) => {
                let mut s = String::from_str("Connection timeout after ");
                push_decimal(&mut s, *ms as u64);
                s.append("ms");
                Some(s)
            },
            DbError::WorkerNeverReady => Some(String::from_str("Worker never ready")),
            DbError::WorkerInitTimeout => Some(String::from_str("Worker initialization timeout")),
            DbError::WorkerReadyTimeout => Some(String::from_str("Worker ready timeout")),
            DbError::WorkerAlreadyInitialized => Some(String::from_str("Worker already initialized")),
            DbError::Worker(_) => None,
        }
    }
}

} // verus!
