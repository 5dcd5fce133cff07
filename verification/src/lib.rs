//! Gateway core for bridging MQTT brokers to a local telemetry pipeline.
//!
//! The library keeps the authoritative state of the gateway: per-broker
//! connection lifecycles, the latest reading per sensor per broker, and the
//! topic-based protocol that classifies inbound traffic. All decisions are
//! made here and returned as plain values (outbound messages, persistence
//! records, connection actions) that an unverified shell executes against
//! the network, the durable store and the log sinks.

pub mod clock;
pub mod config;
pub mod mqtt_manager;
pub mod payload;
pub mod router;
pub mod sensor_manager;
pub mod text;
