//! History and Prometheus metrics for Submarine sensor data.

pub mod config;
pub mod endpoints;
pub mod laws;
pub mod metrics;
pub mod model;
pub mod monitor;
pub mod query;
pub mod sensor;
pub mod system;
pub mod text;
