//! Streaming per-task statistics for scheduling events: record decoding,
//! accumulators, the statistics store, trace-target resolution and the
//! session's termination rule.

pub mod quantity;
pub mod task_stats;
pub mod event;
pub mod store;
pub mod target;
pub mod session;
pub mod report;

