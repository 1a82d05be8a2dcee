//! Sampling and aggregation engine for host CPU and memory telemetry.

pub mod text;
pub mod load;
mod natural;
pub mod cpu;
pub mod memory;
pub mod summary;
pub mod scheduler;
pub mod store;
pub mod data_url;
