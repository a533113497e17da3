//! Commands the host sends to the device.
use vstd::prelude::*;
use crate::filter::FilterSpec;
use crate::types::{Mode, OutputFormat, Radio, WifiBand, WifiType};
use crate::text::same_text;

verus! {

/// One command line. A `SetConfig` (the `set` command) changes only the fields it carries.
#[derive(Debug, Clone, PartialEq, Eq)]
pub enum Command {
    Get,
    Start,
    Stop,
    Status,
    SetConfig {
        radio: Option<Radio>,
        mode: Option<Mode>,
        format: Option<OutputFormat>,
        wifi_band: Option<WifiBand>,
        dwell_ms: Option<u16>,
        hopmask: Option<u16>,
        channels_5ghz: Option<Vec<u8>>,
        ble_interval_ms: Option<u16>,
        ble_window_ms: Option<u16>,
        ble_active: Option<bool>,
        wifi_types: Option<Vec<WifiType>>,
        filters: Option<FilterSpec>,
    },
}

/// The command names the device accepts.
pub open spec fn is_command_name(name: Seq<char>) -> bool {
    name == "get"@ || name == "start"@ || name == "stop"@ || name == "status"@ || name == "set"@
}

/// Whether `name` is a command the device accepts; a JSON object whose `cmd`
/// is anything else is an unknown command.
pub fn known_command(name: &str) -> (b: bool)
    ensures
        b == is_command_name(name@),
{
    same_text(name, "get") || same_text(name, "start") || same_text(name, "stop") || same_text(name, "status")
        || same_text(name, "set")
}

} // verus!
