//! Write-ahead log: record framing, sync policy and entry types.
pub mod entry;
pub mod frame;
pub mod policy;
