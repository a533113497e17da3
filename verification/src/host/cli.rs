//! The command line: its options as plain values, and the `set` command they make.
use vstd::prelude::*;
use crate::command::Command;
use crate::filter::FilterSpec;
use crate::types::{Mode, OutputFormat, Radio, WifiBand, WifiType};

verus! {

/// The parsed command line.
#[derive(Debug, PartialEq, Eq)]
pub struct Cli {
    pub port: String,
    pub baud: u32,
    pub cmd: Cmd,
}

/// The subcommands.
#[derive(Debug, PartialEq, Eq)]
pub enum Cmd {
    Status,
    Stop,
    SetConfig {
        radio: Option<RadioArg>,
        mode: Option<ModeArg>,
        format: Option<FormatArg>,
        wifi_band: Option<WifiBandArg>,
        dwell_ms: Option<u16>,
        hopmask: Option<String>,
        channels_5ghz: Option<Vec<u8>>,
        ble_interval_ms: Option<u16>,
        ble_window_ms: Option<u16>,
        ble_active: Option<bool>,
        wifi_types: Option<Vec<WifiTypeArg>>,
        oui: Option<Vec<String>>,
        mac: Option<Vec<String>>,
        name_regex: Option<String>,
        ssid_regex: Option<String>,
        manufacturer_regex: Option<String>,
        company_id: Option<Vec<u16>>,
        start: bool,
    },
    Start { json: Option<String>, pcap: Option<String>, detach: bool },
}

#[derive(Debug, Clone, Copy, PartialEq, Eq, Structural)]
pub enum RadioArg {
    Wifi,
    Ble,
    Both,
    Off,
}

pub open spec fn radio_of(v: RadioArg) -> Radio {
    match v {
        RadioArg::Wifi => Radio::Wifi,
        RadioArg::Ble => Radio::Ble,
        RadioArg::Both => Radio::Both,
        RadioArg::Off => Radio::Off,
    }
}

impl From<RadioArg> for Radio {
    fn from(v: RadioArg) -> (r: Self) {
        match v {
            RadioArg::Wifi => Radio::Wifi,
            RadioArg::Ble => Radio::Ble,
            RadioArg::Both => Radio::Both,
            RadioArg::Off => Radio::Off,
        }
    }
}

impl vstd::std_specs::convert::FromSpecImpl<RadioArg> for Radio {
    open spec fn obeys_from_spec() -> bool {
        true
    }

    open spec fn from_spec(v: RadioArg) -> Self {
        radio_of(v)
    }
}

#[derive(Debug, Clone, Copy, PartialEq, Eq, Structural)]
pub enum ModeArg {
    Discovery,
    Capture,
}

pub open spec fn mode_of(v: ModeArg) -> Mode {
    match v {
        ModeArg::Discovery => Mode::Discovery,
        ModeArg::Capture => Mode::Capture,
    }
}

impl From<ModeArg> for Mode {
    fn from(v: ModeArg) -> (r: Self) {
        match v {
            ModeArg::Discovery => Mode::Discovery,
            ModeArg::Capture => Mode::Capture,
        }
    }
}

impl vstd::std_specs::convert::FromSpecImpl<ModeArg> for Mode {
    open spec fn obeys_from_spec() -> bool {
        true
    }

    open spec fn from_spec(v: ModeArg) -> Self {
        mode_of(v)
    }
}

#[derive(Debug, Clone, Copy, PartialEq, Eq, Structural)]
pub enum FormatArg {
    Json,
    Pcap,
}

pub open spec fn format_of(v: FormatArg) -> OutputFormat {
    match v {
        FormatArg::Json => OutputFormat::Json,
        FormatArg::Pcap => OutputFormat::Pcap,
    }
}

impl From<FormatArg> for OutputFormat {
    fn from(v: FormatArg) -> (r: Self) {
        match v {
            FormatArg::Json => OutputFormat::Json,
            FormatArg::Pcap => OutputFormat::Pcap,
        }
    }
}

impl vstd::std_specs::convert::FromSpecImpl<FormatArg> for OutputFormat {
    open spec fn obeys_from_spec() -> bool {
        true
    }

    open spec fn from_spec(v: FormatArg) -> Self {
        format_of(v)
    }
}

/// `2.4`, `5` or `both` on the command line.
#[derive(Debug, Clone, Copy, PartialEq, Eq, Structural)]
pub enum WifiBandArg {
    TwoG,
    FiveG,
    Both,
}

pub open spec fn band_of(v: WifiBandArg) -> WifiBand {
    match v {
        WifiBandArg::TwoG => WifiBand::TwoG,
        WifiBandArg::FiveG => WifiBand::FiveG,
        WifiBandArg::Both => WifiBand::Both,
    }
}

impl From<WifiBandArg> for WifiBand {
    fn from(v: WifiBandArg) -> (r: Self) {
        match v {
            WifiBandArg::TwoG => WifiBand::TwoG,
            WifiBandArg::FiveG => WifiBand::FiveG,
            WifiBandArg::Both => WifiBand::Both,
        }
    }
}

impl vstd::std_specs::convert::FromSpecImpl<WifiBandArg> for WifiBand {
    open spec fn obeys_from_spec() -> bool {
        true
    }

    open spec fn from_spec(v: WifiBandArg) -> Self {
        band_of(v)
    }
}

#[derive(Debug, Clone, Copy, PartialEq, Eq, Structural)]
pub enum WifiTypeArg {
    Mgmt,
    Ctrl,
    Data,
}

pub open spec fn wifi_type_of(v: WifiTypeArg) -> WifiType {
    match v {
        WifiTypeArg::Mgmt => WifiType::Mgmt,
        WifiTypeArg::Ctrl => WifiType::Ctrl,
        WifiTypeArg::Data => WifiType::Data,
    }
}

impl From<WifiTypeArg> for WifiType {
    fn from(v: WifiTypeArg) -> (r: Self) {
        match v {
            WifiTypeArg::Mgmt => WifiType::Mgmt,
            WifiTypeArg::Ctrl => WifiType::Ctrl,
            WifiTypeArg::Data => WifiType::Data,
        }
    }
}

impl vstd::std_specs::convert::FromSpecImpl<WifiTypeArg> for WifiType {
    open spec fn obeys_from_spec() -> bool {
        true
    }

    open spec fn from_spec(v: WifiTypeArg) -> Self {
        wifi_type_of(v)
    }
}

/// Each command-line choice stands for the setting of the same name: the
/// band options `2.4`, `5` and `both` use 2.4 GHz only, 5 GHz only and both
/// bands, and different choices never give the same setting.
pub proof fn lemma_options_map_to_their_settings(x: RadioArg, y: RadioArg, m: ModeArg, n: ModeArg, f: FormatArg, g: FormatArg, b: WifiBandArg, c: WifiBandArg, t: WifiTypeArg, u: WifiTypeArg)
    ensures
        radio_of(x) == radio_of(y) ==> x == y,
        mode_of(m) == mode_of(n) ==> m == n,
        format_of(f) == format_of(g) ==> f == g,
        band_of(b) == band_of(c) ==> b == c,
        wifi_type_of(t) == wifi_type_of(u) ==> t == u,
        band_of(b).spec_uses_2g() <==> b != WifiBandArg::FiveG,
        band_of(b).spec_uses_5g() <==> b != WifiBandArg::TwoG,
        (radio_of(x) == Radio::Wifi) == (x == RadioArg::Wifi),
        (radio_of(x) == Radio::Ble) == (x == RadioArg::Ble),
        (radio_of(x) == Radio::Both) == (x == RadioArg::Both),
        (radio_of(x) == Radio::Off) == (x == RadioArg::Off),
        (mode_of(m) == Mode::Capture) == (m == ModeArg::Capture),
        (format_of(f) == OutputFormat::Pcap) == (f == FormatArg::Pcap),
        (wifi_type_of(t) == WifiType::Mgmt) == (t == WifiTypeArg::Mgmt),
        (wifi_type_of(t) == WifiType::Ctrl) == (t == WifiTypeArg::Ctrl),
        (wifi_type_of(t) == WifiType::Data) == (t == WifiTypeArg::Data),
{
}

pub open spec fn opt_map_radio(v: Option<RadioArg>) -> Option<Radio> {
    match v {
        Some(x) => Some(radio_of(x)),
        None => None,
    }
}

pub open spec fn opt_map_mode(v: Option<ModeArg>) -> Option<Mode> {
    match v {
        Some(x) => Some(mode_of(x)),
        None => None,
    }
}

pub open spec fn opt_map_format(v: Option<FormatArg>) -> Option<OutputFormat> {
    match v {
        Some(x) => Some(format_of(x)),
        None => None,
    }
}

pub open spec fn opt_map_band(v: Option<WifiBandArg>) -> Option<WifiBand> {
    match v {
        Some(x) => Some(band_of(x)),
        None => None,
    }
}

pub open spec fn types_of(v: Seq<WifiTypeArg>) -> Seq<WifiType> {
    v.map_values(|t: WifiTypeArg| wifi_type_of(t))
}

fn convert_types(v: &Vec<WifiTypeArg>) -> (r: Vec<WifiType>)
    ensures
        r@ == types_of(v@),
{
    let mut r: Vec<WifiType> = Vec::new();
    let mut i: usize = 0;
    while i < v.len()
        invariant
            i <= v@.len(),
            r@ == types_of(v@.take(i as int)),
        decreases v@.len() - i,
    {
        r.push(WifiType::from(v[i]));
        i += 1;
        assert(r@ =~= types_of(v@.take(i as int)));
    }
    assert(v@.take(v@.len() as int) == v@);
    r
}

/// `c` is the `set` command for the given options: each option carried over
/// as the device's value for it, omitted ones left omitted.
pub open spec fn is_set_command(
    c: Command,
    radio: Option<RadioArg>,
    mode: Option<ModeArg>,
    format: Option<FormatArg>,
    wifi_band: Option<WifiBandArg>,
    dwell_ms: Option<u16>,
    hopmask: Option<u16>,
    channels_5ghz: Option<Vec<u8>>,
    ble_interval_ms: Option<u16>,
    ble_window_ms: Option<u16>,
    ble_active: Option<bool>,
    wifi_types: Option<Vec<WifiTypeArg>>,
    filters: Option<FilterSpec>,
) -> bool {
    c matches Command::SetConfig {
        radio: r,
        mode: m,
        format: f,
        wifi_band: b,
        dwell_ms: d,
        hopmask: h,
        channels_5ghz: ch,
        ble_interval_ms: bi,
        ble_window_ms: bw,
        ble_active: ba,
        wifi_types: wt,
        filters: fs,
    } && r == opt_map_radio(radio) && m == opt_map_mode(mode) && f == opt_map_format(format) && b == opt_map_band(
        wifi_band,
    ) && d == dwell_ms && h == hopmask && ch == channels_5ghz && bi == ble_interval_ms && bw == ble_window_ms && ba
        == ble_active && fs == filters && match wifi_types {
        Some(v) => wt matches Some(t) && t@ == types_of(v@),
        None => wt is None,
    }
}

/// The `set` command for the given options (see `is_set_command`).
pub fn set_command(
    radio: Option<RadioArg>,
    mode: Option<ModeArg>,
    format: Option<FormatArg>,
    wifi_band: Option<WifiBandArg>,
    dwell_ms: Option<u16>,
    hopmask: Option<u16>,
    channels_5ghz: Option<Vec<u8>>,
    ble_interval_ms: Option<u16>,
    ble_window_ms: Option<u16>,
    ble_active: Option<bool>,
    wifi_types: Option<Vec<WifiTypeArg>>,
    filters: Option<FilterSpec>,
) -> (c: Command)
    ensures
        is_set_command(c, radio, mode, format, wifi_band, dwell_ms, hopmask, channels_5ghz, ble_interval_ms,
            ble_window_ms, ble_active, wifi_types, filters),
{
    let types: Option<Vec<WifiType>> = match &wifi_types {
        Some(v) => Some(convert_types(v)),
        None => None,
    };
    Command::SetConfig {
        radio: match radio {
            Some(x) => Some(Radio::from(x)),
            None => None,
        },
        mode: match mode {
            Some(x) => Some(Mode::from(x)),
            None => None,
        },
        format: match format {
            Some(x) => Some(OutputFormat::from(x)),
            None => None,
        },
        wifi_band: match wifi_band {
            Some(x) => Some(WifiBand::from(x)),
            None => None,
        },
        dwell_ms,
        hopmask,
        channels_5ghz,
        ble_interval_ms,
        ble_window_ms,
        ble_active,
        wifi_types: types,
        filters,
    }
}

} // verus!
