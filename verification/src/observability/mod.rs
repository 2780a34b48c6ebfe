//! Observation of the library at work: counters and latencies.
pub mod metrics;
