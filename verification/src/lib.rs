//! A data-access layer for a notes application, written against a flat
//! key-value store.
//!
//! The domain is a hierarchy (user, vault, notebook, note) plus short-lived
//! login sessions. The store knows nothing of it: every record, every lookup
//! index and every membership set is a key of its own, and this crate keeps
//! them consistent.
//!
//! The crate performs no I/O. Each operation is a small protocol: it names the
//! next command for the store, is resumed with the store's reply, and ends
//! with a result. Whoever owns the connection drives it.
//!
//! - [`keys`]: how records, indexes and sets are named.
//! - [`ids`]: the identifiers that records and sessions are created under.
//! - [`models`]: the user record, its encoding, and password checks.
//! - [`protocol`]: commands and replies.
//! - [`machine`]: operations as protocols, and what driving one to its end
//!   against a store means.
//! - [`client`]: sessions.
//! - [`ops`]: users, vaults, notebooks and notes.
//! - [`model`]: the store as the contracts see it.
//! - [`memory`]: a store in memory that behaves as the model says.
//! - [`laws`]: what holds of the operations, proved against the model.

pub mod client;
pub mod error;
pub mod ids;
pub mod keys;
pub mod laws;
pub mod machine;
pub mod memory;
pub mod model;
pub mod models;
pub mod ops;
pub mod protocol;
