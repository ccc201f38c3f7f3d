//! Speed measurement engine: rate sampling with ramp-up correction, latency
//! reduction, worker coordination, run sequencing and result formatting.
pub mod coordinator;
pub mod engine;
pub mod format;
pub mod latency;
pub mod models;
pub mod monitor;
pub mod protocol;
pub mod sampler;
pub mod target;
