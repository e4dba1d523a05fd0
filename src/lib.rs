//! Topology cache, metrics store and OpenMetrics exposition for a UniFi
//! network and sensor exporter, with their contracts proved by Verus.
pub mod decimal;
pub mod models;
pub mod cache;
pub mod config;
pub mod metrics;
pub mod exposition;
pub mod poll;
pub mod http;
