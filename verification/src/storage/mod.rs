//! Tiered storage: tiers, access tracking, eviction, migration and
//! compression of integer blocks.
pub mod catalog;
pub mod compression;
pub mod error;
pub mod migration;
pub mod policy;
pub mod tier;
