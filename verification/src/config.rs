//! Broker client configuration: the immutable description of one broker
//! connection, loaded once at startup and never mutated afterwards.

use vstd::prelude::*;

verus! {

/// Ghost image of one broker configuration.
pub struct ConfigView {
    pub name: Seq<char>,
    pub address: Seq<char>,
    pub port: u32,
    pub user: Seq<char>,
    pub password: Seq<char>,
}

/// Connection settings for one broker: a unique display name (also used as
/// the MQTT client id), the network address and port, and a credential pair.
pub struct MqttClientConfig {
    pub name: String,
    pub address: String,
    pub port: u32,
    pub user: String,
    pub password: String,
}

impl View for MqttClientConfig {
    type V = ConfigView;

    open spec fn view(&self) -> ConfigView {
        ConfigView {
            name: self.name@,
            address: self.address@,
            port: self.port,
            user: self.user@,
            password: self.password@,
        }
    }
}

impl ConfigView {
    /// A configuration is structurally valid when its name, its address and
    /// both credentials are present (nonempty). Registration fails fast on
    /// anything else, before any network traffic is attempted.
    pub open spec fn structurally_valid(self) -> bool {
        &&& self.name.len() > 0
        &&& self.address.len() > 0
        &&& self.user.len() > 0
        &&& self.password.len() > 0
    }
}

impl MqttClientConfig {
    /// Decides structural validity of this configuration.
    pub fn is_structurally_valid(&self) -> (r: bool)
        ensures
            r == self@.structurally_valid(),
    {
        !self.name.as_str().is_empty() && !self.address.as_str().is_empty()
            && !self.user.as_str().is_empty() && !self.password.as_str().is_empty()
    }
}

/// The full set of broker configurations supplied at startup.
pub struct MqttClientConfigs {
    pub mqtt_clients: Vec<MqttClientConfig>,
}

impl View for MqttClientConfigs {
    type V = Seq<ConfigView>;

    open spec fn view(&self) -> Seq<ConfigView> {
        self.mqtt_clients@.map(|i: int, c: MqttClientConfig| c@)
    }
}

} // verus!
