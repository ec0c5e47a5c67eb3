//! An append-only capture filesystem: a flat namespace of regular files
//! below one root directory, where every write is split into text records
//! that are appended, in order, to a pluggable record store.
//!
//! - `attr`: attribute records, catalog rows, and the mapping between them.
//! - `records`: how a written byte range becomes text records.
//! - `store`: what a record store holds and what its operations do, and the
//!   capability that every storage engine offers.
//! - `mem_store`: the engine that keeps everything in process memory.
//! - `namespace`: the root, the bound on names, and their uniqueness.
//! - `session`: the snapshot that an open directory is read from.
//! - `dispatcher`: the filesystem calls, over any engine.
//! - `laws`: what holds of the calls taken together.
//!
//! Nothing here reads a clock or talks to a device: a call that needs the
//! time takes it as an argument, and a storage engine that performs
//! input and output is handed in behind the `RecordStore` capability.

pub mod attr;
pub mod bytes;
pub mod dispatcher;
pub mod error;
pub mod laws;
pub mod mem_store;
pub mod namespace;
pub mod records;
pub mod session;
pub mod store;
