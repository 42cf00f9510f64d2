//! Reports of printers over MQTT.
pub mod client;
