//! The backend chosen at start-up.
use vstd::prelude::*;

use crate::config::DatabaseConfig;
use crate::memory::MemoryStore;

verus! {

/// A backend that cannot be opened.
#[derive(Debug, Clone, Copy, PartialEq, Eq, Structural)]
pub enum StoreError {
    /// The relational backend is not part of this build.
    PostgresDisabled,
    /// The document backend is not part of this build.
    MongodbDisabled,
}

/// The storage backend in use. This build carries the in-memory backend only.
pub enum DatabaseStore {
    Memory(MemoryStore),
}

impl DatabaseStore {
    /// Opens the backend that `config` names; durable backends are not part of this
    /// build, so each kind is refused with its own error.
    pub fn connect(config: &DatabaseConfig) -> (r: Result<DatabaseStore, StoreError>)
        ensures
            config is Postgres ==> r == Err::<DatabaseStore, StoreError>(StoreError::PostgresDisabled),
            config is Mongodb ==> r == Err::<DatabaseStore, StoreError>(StoreError::MongodbDisabled),
    {
        match config {
            DatabaseConfig::Postgres { .. } => Err(StoreError::PostgresDisabled),
            DatabaseConfig::Mongodb { .. } => Err(StoreError::MongodbDisabled),
        }
    }

    /// A fresh in-memory backend.
    pub fn memory() -> (r: DatabaseStore)
        ensures
            r matches DatabaseStore::Memory(m) && m.wf() && m.ledger().len() == 0
                && m.users().dom().is_empty() && m.quotas().dom().is_empty()
                && m.failures().len() == 0,
    {
        DatabaseStore::Memory(MemoryStore::new())
    }

    /// The in-memory store behind this backend.
    pub fn into_memory(self) -> (m: MemoryStore)
        ensures
            self matches DatabaseStore::Memory(x) && m == x,
    {
        match self {
            DatabaseStore::Memory(m) => m,
        }
    }
}

} // verus!
