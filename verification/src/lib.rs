//! A local catalog of music files that mirrors the contents of a directory
//! tree.
//!
//! The crate discovers audio files under a root directory, extracts the
//! descriptive tags embedded in each file, and reconciles the result into a
//! normalized relational catalog keyed by natural identity: performer name,
//! album name and year, song title. Songs whose titles no longer appear in
//! the directory are removed on the next synchronization; performer and
//! album rows are never deleted.
//!
//! The reconciliation logic operates on an in-memory [`catalog::Catalog`]
//! whose behaviour is specified against the mathematical model in [`model`];
//! the [`store`] module persists a catalog to an SQLite database, and the
//! [`miner`] module walks the directory tree and reads the tags. The
//! engine's global properties — idempotence of a rescan, cleanup
//! correctness, update-in-place without duplication, and the round trip of
//! a unique title — are stated and proved in [`laws`].

pub mod model;
pub mod paths;
pub mod song_settings;
pub mod catalog;
pub mod query;
pub mod store;
pub mod miner;
pub mod laws;
