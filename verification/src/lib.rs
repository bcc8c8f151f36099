//! A verified core for a local cache of git-hosted skill repositories.
//!
//! The crate covers deterministic cache-entry naming and URL parsing,
//! cache statistics (sizes, sorted snapshots), age-based and full
//! eviction planning, fetch policy decisions (credentials, clone depth,
//! failure classification), configuration thresholds, and the manifest
//! validation scaffolding.  All I/O (environment, filesystem, network)
//! stays outside the library; callers hand in plain values.

pub mod cache;
pub mod config;
pub mod display;
pub mod error;
pub mod evict;
pub mod fetch;
pub mod stats;
pub mod text;
pub mod validator;
