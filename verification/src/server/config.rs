//! Server configuration presets.
use crate::server::durability::DurabilityMode;
use vstd::prelude::*;

verus! {

/// Server configuration.
#[derive(Debug, Clone, Copy, PartialEq, Eq, Structural)]
pub struct ServerConfig {
    /// Durability mode.
    pub durability_mode: DurabilityMode,
    /// How long a small batch waits for more commands, in microseconds.
    pub adaptive_timeout_micros: u64,
    /// Batch size that is processed without waiting.
    pub min_batch_for_immediate_process: usize,
    /// Most commands drained into one batch.
    pub max_drain_size: usize,
    /// Log sync: writes per flush.
    pub wal_sync_batch_size: usize,
    /// Log sync: longest delay before a flush, in microseconds.
    pub wal_sync_max_delay_micros: u64,
    /// Whether metrics are collected.
    pub enable_metrics: bool,
    /// Metrics reporting interval in seconds.
    pub metrics_report_interval_secs: u64,
}

/// The configuration whose fields are, in declaration order, the given values.
pub open spec fn spec_config(
    durability_mode: DurabilityMode,
    adaptive_timeout_micros: u64,
    min_batch_for_immediate_process: usize,
    max_drain_size: usize,
    wal_sync_batch_size: usize,
    wal_sync_max_delay_micros: u64,
    metrics_report_interval_secs: u64,
) -> ServerConfig {
    ServerConfig {
        durability_mode,
        adaptive_timeout_micros,
        min_batch_for_immediate_process,
        max_drain_size,
        wal_sync_batch_size,
        wal_sync_max_delay_micros,
        enable_metrics: true,
        metrics_report_interval_secs,
    }
}

impl Default for ServerConfig {
    /// Balanced settings with asynchronous durability.
    fn default() -> (c: Self)
        ensures
            c == spec_config(DurabilityMode::Async, 50, 10, 10_000, 50, 1000, 10),
    {
        ServerConfig {
            durability_mode: DurabilityMode::Async,
            adaptive_timeout_micros: 50,
            min_batch_for_immediate_process: 10,
            max_drain_size: 10_000,
            wal_sync_batch_size: 50,
            wal_sync_max_delay_micros: 1000,
            enable_metrics: true,
            metrics_report_interval_secs: 10,
        }
    }
}

impl ServerConfig {
    /// Settings for low latency (one request at a time).
    pub fn low_latency() -> (c: Self)
        ensures
            c == spec_config(DurabilityMode::Async, 20, 5, 1_000, 10, 500, 5),
    {
        ServerConfig {
            durability_mode: DurabilityMode::Async,
            adaptive_timeout_micros: 20,
            min_batch_for_immediate_process: 5,
            max_drain_size: 1_000,
            wal_sync_batch_size: 10,
            wal_sync_max_delay_micros: 500,
            enable_metrics: true,
            metrics_report_interval_secs: 5,
        }
    }

    /// Settings for high throughput (batches).
    pub fn high_throughput() -> (c: Self)
        ensures
            c == spec_config(DurabilityMode::Async, 100, 50, 50_000, 1000, 5000, 10),
    {
        ServerConfig {
            durability_mode: DurabilityMode::Async,
            adaptive_timeout_micros: 100,
            min_batch_for_immediate_process: 50,
            max_drain_size: 50_000,
            wal_sync_batch_size: 1000,
            wal_sync_max_delay_micros: 5000,
            enable_metrics: true,
            metrics_report_interval_secs: 10,
        }
    }

    /// Settings for maximum safety (no data loss).
    pub fn maximum_safety() -> (c: Self)
        ensures
            c == spec_config(DurabilityMode::Strict, 10, 1, 100, 1, 100, 10),
    {
        ServerConfig {
            durability_mode: DurabilityMode::Strict,
            adaptive_timeout_micros: 10,
            min_batch_for_immediate_process: 1,
            max_drain_size: 100,
            wal_sync_batch_size: 1,
            wal_sync_max_delay_micros: 100,
            enable_metrics: true,
            metrics_report_interval_secs: 10,
        }
    }
}

} // verus!
