//! Ingestion of sensor telemetry: payload validation, an append-only reading
//! store, the read-side responses, and the subscriber's reconnect decisions.

pub mod api;
pub mod config;
pub mod payload;
pub mod reading;
pub mod store;
pub mod subscriber;
pub mod tls;
