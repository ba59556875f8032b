//! Settings of the agent, as they are after loading and before any use.

use vstd::prelude::*;
use vstd::string::StringExecFns;

verus! {

/// Where the inverter's transport is found.
#[derive(Debug, Clone)]
pub struct InverterSettings {
    pub path: String,
}

/// Names under which the device announces itself to the broker.
#[derive(Debug, Clone)]
pub struct MqttDiscovery {
    pub prefix: String,
    pub node_name: String,
    pub device_name: String,
    pub device_id: String,
}

/// Broker connection parameters and the topic prefix of every channel.
#[derive(Debug, Clone)]
pub struct MqttSettings {
    pub host: String,
    pub port: u16,
    pub username: String,
    pub password: String,
    pub client_id: String,
    pub topic: String,
    pub discovery: MqttDiscovery,
}

/// Everything the agent is configured with. Delays are in seconds.
#[derive(Debug, Clone)]
pub struct Settings {
    pub debug: bool,
    pub outer_delay: u64,
    pub inner_delay: u64,
    pub error_delay: u64,
    pub inverter_count: u8,
    pub inner_iterations: u64,
    pub inverter: InverterSettings,
    pub mqtt: MqttSettings,
    pub mode: String,
}

/// The device family, which selects the command set.
#[derive(Debug, Clone, Copy, PartialEq, Eq, Structural)]
pub enum Mode {
    /// One aggregate status query and the full rating information.
    Standard,
    /// Per-unit status queries and the reduced rating information.
    Alternate,
}

/// The highest unit index that a per-unit status query can address.
pub const MAX_UNIT: u8 = 9;

/// The mode that a mode tag selects: the alternate one for the tag
/// `alternate` and for the name of the alternate device family, `phocos`;
/// the standard one for every other tag.
pub open spec fn mode_of_tag(tag: Seq<char>) -> Mode {
    if tag == "phocos"@ || tag == "alternate"@ {
        Mode::Alternate
    } else {
        Mode::Standard
    }
}

impl Settings {
    /// The unit count is one that the per-unit queries can address.
    pub open spec fn valid(&self) -> bool {
        self.inverter_count <= MAX_UNIT
    }

    /// The mode that the settings' mode tag selects.
    pub open spec fn selected_mode(&self) -> Mode {
        mode_of_tag(self.mode@)
    }

    /// Whether the unit count is one that the per-unit queries can address.
    pub fn is_valid(&self) -> (ok: bool)
        ensures
            ok == self.valid(),
    {
        self.inverter_count <= MAX_UNIT
    }

    /// The mode that the settings' mode tag selects.
    pub fn device_mode(&self) -> (mode: Mode)
        ensures
            mode == self.selected_mode(),
    {
        let family = String::from_str("phocos");
        let alternate = String::from_str("alternate");
        if self.mode == family || self.mode == alternate {
            Mode::Alternate
        } else {
            Mode::Standard
        }
    }
}

} // verus!
