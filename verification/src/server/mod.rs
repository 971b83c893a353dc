//! Server rules: durability modes, configuration presets, metrics, the
//! shard's batching, logging and compaction decisions, and the request
//! gateway's checks.
pub mod benchmark_config;
pub mod config;
pub mod durability;
pub mod metrics;
pub mod gateway;
pub mod shard;
pub mod sql;
