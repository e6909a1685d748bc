//! Benchmark driver for a distributed transaction-execution testbed.
//!
//! The crate builds shard configuration registries, models the executor-shard
//! lifecycle, sizes synthetic benchmark workloads, and encodes generated
//! datasets so that an export followed by an import reproduces them exactly.

pub mod config;
pub mod dataset;
pub mod decimal;
pub mod shard;
pub mod storage;
pub mod testbed;
pub mod workload;
