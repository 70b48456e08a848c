//! The closed error taxonomy: one tagged variant per failure source, each
//! carrying the original cause for diagnostics. Absence of a stored value is
//! never reported through this type.

use vstd::prelude::*;

use crate::codec::ProtocolError;

verus! {

/// DB error type: every failure of the storage layer. Errors are constructed
/// at the failure site and returned to the immediate caller; nothing is
/// retried or swallowed internally.
#[derive(Clone, Debug)]
pub enum DbError {
    /// The storage engine failed during a read, write or scan; carries the
    /// engine's own message.
    EngineError(String),
    /// The engine failed while opening or creating the store; carries the
    /// engine's message, the path as supplied, and the canonicalized path
    /// that was actually opened.
    OpeningError { source: String, path: String, canonicalized: String },
    /// The parent of the supplied store path could not be canonicalized;
    /// carries the filesystem cause and the path as supplied.
    InvalidDbPath(String, String),
    /// Stored bytes could not be interpreted as the requested typed value.
    DecodeError(ProtocolError),
}

} // verus!
