//! A content-addressed file store: keys are digests of file contents, files
//! live in a sharded directory tree, and a metadata mirror records how long
//! each entry must be kept.
//!
//! The library holds the store's rules; the host program performs the
//! filesystem work and hands the observations in as plain values.

pub mod data;
pub mod execution;
pub mod key;
pub mod language;
pub mod laws;
pub mod source_file;
pub mod store;

pub use data::{FileStoreData, FileStoreItem};
pub use execution::{Execution, ExecutionDAG, File};
pub use key::{FileStoreKey, ShardPath};
pub use language::Language;
pub use source_file::SourceFile;
pub use laws::{
    content_addressing, corruption_is_evicted, probe_keeps_lifetime, reconciliation_drops_missing,
    store_is_idempotent, store_then_get,
};
pub use store::{FileState, FileStore, FileStoreError, FileTime, GetOutcome, HasKeyOutcome, StorePlan};
