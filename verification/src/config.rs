//! Configuration records and their validation.

use vstd::prelude::*;

use crate::router::TopicRouter;

verus! {

/// Process-wide settings.
#[derive(Debug, PartialEq)]
pub struct ConfigSystem {
    pub log_level: String,
}

impl Clone for ConfigSystem {
    fn clone(&self) -> (copy: Self)
        ensures
            copy == *self,
    {
        ConfigSystem { log_level: self.log_level.clone() }
    }
}

/// Connection to the Loki sink and the two flush triggers.
#[derive(Debug, PartialEq)]
pub struct ConfigLoki {
    pub base_url: String,
    pub username: String,
    pub password: String,
    pub batch_size: usize,
    pub batch_timeout_seconds: u64,
}

impl Clone for ConfigLoki {
    fn clone(&self) -> (copy: Self)
        ensures
            copy == *self,
    {
        ConfigLoki {
            base_url: self.base_url.clone(),
            username: self.username.clone(),
            password: self.password.clone(),
            batch_size: self.batch_size,
            batch_timeout_seconds: self.batch_timeout_seconds,
        }
    }
}

/// Connection to the MQTT broker.
#[derive(Debug, PartialEq)]
pub struct ConfigMqtt {
    pub address: String,
    pub port: u16,
    pub use_tls: bool,
    pub username: String,
    pub password: String,
    pub client_id: String,
}

impl Clone for ConfigMqtt {
    fn clone(&self) -> (copy: Self)
        ensures
            copy == *self,
    {
        ConfigMqtt {
            address: self.address.clone(),
            port: self.port,
            use_tls: self.use_tls,
            username: self.username.clone(),
            password: self.password.clone(),
            client_id: self.client_id.clone(),
        }
    }
}

/// One device: the label its log lines are filed under, and the topic it
/// publishes on.
#[derive(Debug, PartialEq)]
pub struct ConfigDevice {
    pub label: String,
    pub topic: String,
}

/// A device as specifications see it.
pub struct DeviceView {
    pub label: Seq<char>,
    pub topic: Seq<char>,
}

impl View for ConfigDevice {
    type V = DeviceView;

    open spec fn view(&self) -> DeviceView {
        DeviceView { label: self.label@, topic: self.topic@ }
    }
}

impl Clone for ConfigDevice {
    fn clone(&self) -> (copy: Self)
        ensures
            copy == *self,
    {
        ConfigDevice { label: self.label.clone(), topic: self.topic.clone() }
    }
}

/// The views of a list of devices, in order.
pub open spec fn device_views(devices: Seq<ConfigDevice>) -> Seq<DeviceView> {
    devices.map_values(|d: ConfigDevice| d@)
}

/// No two devices of the list publish on the same topic.
pub open spec fn distinct_topics(devices: Seq<DeviceView>) -> bool {
    forall|i: int, j: int|
        0 <= i < j < devices.len() ==> (#[trigger] devices[i]).topic != (#[trigger] devices[j]).topic
}

/// Some device of the list publishes on `topic`.
pub open spec fn has_topic(devices: Seq<DeviceView>, topic: Seq<char>) -> bool {
    exists|i: int| 0 <= i < devices.len() && (#[trigger] devices[i]).topic == topic
}

/// The whole configuration, with the routing table that `load_config` derives
/// from the device list.
pub struct Config {
    pub system: ConfigSystem,
    pub device: Vec<ConfigDevice>,
    pub loki: ConfigLoki,
    pub mqtt: ConfigMqtt,
    pub topic2device: TopicRouter,
}

/// Why a configuration is refused.
#[derive(Debug, Clone, Copy, PartialEq, Eq, Structural)]
pub enum ConfigError {
    /// The size trigger is zero.
    ZeroBatchSize,
    /// The timeout trigger is zero.
    ZeroBatchTimeout,
    /// Two devices name the same topic.
    DuplicateTopic,
}

/// The first fault of a configuration, if it has one: the size trigger is
/// looked at first, then the timeout, then the device list.
pub open spec fn config_fault(
    batch_size: usize,
    batch_timeout_seconds: u64,
    devices: Seq<DeviceView>,
) -> Option<ConfigError> {
    if batch_size == 0 {
        Some(ConfigError::ZeroBatchSize)
    } else if batch_timeout_seconds == 0 {
        Some(ConfigError::ZeroBatchTimeout)
    } else if !distinct_topics(devices) {
        Some(ConfigError::DuplicateTopic)
    } else {
        None
    }
}

impl ConfigError {
    /// The text shown for this fault.
    pub open spec fn message_spec(self) -> Seq<char> {
        match self {
            ConfigError::ZeroBatchSize => "batch_size cannot be 0."@,
            ConfigError::ZeroBatchTimeout => "batch_timeout_seconds cannot be 0."@,
            ConfigError::DuplicateTopic => "two devices share one topic."@,
        }
    }

    /// The text shown for this fault.
    pub fn message(&self) -> (text: String)
        ensures
            text@ == self.message_spec(),
    {
        match self {
            ConfigError::ZeroBatchSize => "batch_size cannot be 0.".to_owned(),
            ConfigError::ZeroBatchTimeout => "batch_timeout_seconds cannot be 0.".to_owned(),
            ConfigError::DuplicateTopic => "two devices share one topic.".to_owned(),
        }
    }
}

/// Checks the parsed sections and completes them into a `Config`.
///
/// The sections come out unchanged, and `topic2device` maps each device's
/// topic to that device. A zero trigger or a topic used twice is refused with
/// the text of the first fault found.
pub fn load_config(
    system: ConfigSystem,
    device: Vec<ConfigDevice>,
    loki: ConfigLoki,
    mqtt: ConfigMqtt,
) -> (loaded: Result<Config, String>)
    ensures
        match config_fault(loki.batch_size, loki.batch_timeout_seconds, device_views(device@)) {
            Some(fault) => loaded matches Err(text) && text@ == fault.message_spec(),
            None => loaded matches Ok(cfg) && cfg.system == system && cfg.device == device
                && cfg.loki == loki && cfg.mqtt == mqtt && cfg.topic2device.routes(
                device_views(device@),
            ),
        },
{
    if loki.batch_size == 0 {
        return Err(ConfigError::ZeroBatchSize.message());
    } else if loki.batch_timeout_seconds == 0 {
        return Err(ConfigError::ZeroBatchTimeout.message());
    }
    match TopicRouter::new(&device) {
        Some(topic2device) => Ok(Config { system, device, loki, mqtt, topic2device }),
        None => Err(ConfigError::DuplicateTopic.message()),
    }
}

} // verus!
