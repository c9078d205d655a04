//! Transactional storage for a local-first task-tracking replica.
//!
//! A task is a flat property bag keyed by a 128-bit identifier.  All access
//! goes through a transaction: task reads and writes, the append-only
//! operation log that drives synchronization, the sparse working set that
//! gives tasks short numeric references, and the base version counter are
//! read and mutated together and committed (or discarded) as a unit.

pub mod assoc;
pub mod inmemory;
pub mod laws;
pub mod operation;
pub mod state;
pub mod storage;
pub mod taskmap;

pub use inmemory::InMemoryStorage;
pub use inmemory::InMemoryTxn;
pub use operation::Operation;
pub use storage::StorageError;
pub use storage::TaskStorage;
pub use storage::TaskStorageTxn;
pub use taskmap::TaskMap;
pub use taskmap::taskmap_with;
