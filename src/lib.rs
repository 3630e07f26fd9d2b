//! Batched SQLite persistence for a stream of monitoring-engine records.

pub mod classify;
pub mod eve;
pub mod filedata;
pub mod scan;
pub mod store;
