//! The Bambu Cloud service: its data, its errors and its requests.
pub mod client;
pub mod error;
pub mod models;

use vstd::prelude::*;

verus! {

/// The address of the Bambu Cloud service.
pub const API_BASE: &'static str = "https://api.bambulab.com";

/// The host of the Bambu Cloud message broker.
pub const MQTT_HOST: &'static str = "us.mqtt.bambulab.com";

/// The port on which printers and the broker speak MQTT over TLS.
pub const MQTT_PORT: u16 = 8883;

/// How the overlay names itself to the service.
pub const USER_AGENT: &'static str = "bambu-overlay";

} // verus!
