//! A typed, namespaced persistence layer over an embedded ordered key-value
//! storage engine.
//!
//! Callers open a [`db::DB`] handle on a filesystem path, then store and
//! retrieve strongly typed values under logical tables. A table is a byte
//! prefix: the physical key handed to the engine is always the prefix bytes
//! followed by the caller's key bytes, with no separator. Typed values cross
//! the storage boundary through the [`codec`] capability traits, and every
//! failure is reported through the closed [`error::DbError`] taxonomy.

pub mod codec;
pub mod db;
pub mod engine;
pub mod error;
pub mod keys;
pub mod laws;

pub use codec::Decodable;
pub use codec::Encodable;
pub use codec::ProtocolError;
pub use error::DbError;
pub use db::OpenEvent;
pub use db::DB;
