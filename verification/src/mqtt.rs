//! What the broker connection is set up with.

use vstd::prelude::*;

use crate::config::ConfigMqtt;

verus! {

/// Seconds between keep-alive pings to the broker.
pub const KEEP_ALIVE_SECONDS: u64 = 5;

/// Milliseconds the client waits between retransmissions of pending packets.
pub const PENDING_THROTTLE_MILLIS: u64 = 10;

/// How many requests the client may hold before the event loop takes them.
pub const REQUEST_CAPACITY: usize = 10;

/// The MQTT quality of service of every subscription: 0, at most once, the
/// lowest that the protocol offers.
pub const SUBSCRIPTION_QOS: u8 = 0;

/// Everything the MQTT client is created from, as plain values.
#[derive(Debug, PartialEq)]
pub struct MqttSettings {
    pub client_id: String,
    pub address: String,
    pub port: u16,
    /// Connect over TLS, trusting the platform's root certificates.
    pub use_tls: bool,
    pub username: String,
    pub password: String,
    pub keep_alive_seconds: u64,
    pub pending_throttle_millis: u64,
    /// Whether the broker forgets the session when the client disconnects.
    pub clean_session: bool,
    pub request_capacity: usize,
    /// The quality of service to subscribe with, as the protocol numbers it.
    pub subscription_qos: u8,
}

impl Clone for MqttSettings {
    fn clone(&self) -> (copy: Self)
        ensures
            copy == *self,
    {
        MqttSettings {
            client_id: self.client_id.clone(),
            address: self.address.clone(),
            port: self.port,
            use_tls: self.use_tls,
            username: self.username.clone(),
            password: self.password.clone(),
            keep_alive_seconds: self.keep_alive_seconds,
            pending_throttle_millis: self.pending_throttle_millis,
            clean_session: self.clean_session,
            request_capacity: self.request_capacity,
            subscription_qos: self.subscription_qos,
        }
    }
}

/// Derives the client's settings from the broker section of the configuration.
///
/// Identity, address and credentials are taken over as they are; the session
/// is persistent, and the timings, the capacity and the quality of service
/// are the fixed ones above.
pub fn mqtt_init(cfg: ConfigMqtt) -> (settings: MqttSettings)
    ensures
        settings.client_id == cfg.client_id,
        settings.address == cfg.address,
        settings.port == cfg.port,
        settings.use_tls == cfg.use_tls,
        settings.username == cfg.username,
        settings.password == cfg.password,
        settings.keep_alive_seconds == KEEP_ALIVE_SECONDS,
        settings.pending_throttle_millis == PENDING_THROTTLE_MILLIS,
        !settings.clean_session,
        settings.request_capacity == REQUEST_CAPACITY,
        settings.subscription_qos == SUBSCRIPTION_QOS,
{
    MqttSettings {
        client_id: cfg.client_id,
        address: cfg.address,
        port: cfg.port,
        use_tls: cfg.use_tls,
        username: cfg.username,
        password: cfg.password,
        keep_alive_seconds: KEEP_ALIVE_SECONDS,
        pending_throttle_millis: PENDING_THROTTLE_MILLIS,
        clean_session: false,
        request_capacity: REQUEST_CAPACITY,
        subscription_qos: SUBSCRIPTION_QOS,
    }
}

} // verus!
