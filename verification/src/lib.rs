//! AgredaDB core: the verified logic of a multi-modal database — write-ahead
//! log framing and sync decisions, tiered storage bookkeeping and eviction,
//! security (authentication, RBAC, namespaces, audit, encryption), the
//! server's durability, batching and compaction rules, the request
//! gateway's checks, and the vector index's statistics.
pub mod index;
pub mod platform;
pub mod security;
pub mod server;
pub mod storage;
pub mod wal;
