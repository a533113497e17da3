//! Events the device sends to the host, one JSON object per line.
use vstd::prelude::*;
use crate::mac::{colon_hex, format_mac, format_oui, oui_of, payload_hex, plain_hex};
use crate::text::{owned, same_text};

verus! {

/// A `status` reply as the host reads it: the chip name, when the object
/// carries one as a string, and the whole object as JSON text.
#[derive(Debug, Clone, PartialEq, Eq)]
pub struct StatusDoc {
    pub chip: Option<String>,
    pub body: String,
}

/// One event line.
#[derive(Debug, Clone, PartialEq, Eq)]
pub enum Event {
    Ack,
    Error { msg: String },
    Status(StatusDoc),
    WifiAp {
        mac: String,
        oui: String,
        rssi: i8,
        channel: u8,
        freq_mhz: u16,
        ts_ms: u64,
        ssid: String,
        hit_count: u32,
        first_ts_ms: u64,
        last_ts_ms: u64,
    },
    WifiSta {
        mac: String,
        oui: String,
        rssi: i8,
        channel: u8,
        freq_mhz: u16,
        ts_ms: u64,
        ssid: Option<String>,
        hit_count: u32,
        first_ts_ms: u64,
        last_ts_ms: u64,
    },
    Ble {
        mac: String,
        oui: String,
        rssi: i8,
        channel: u8,
        freq_mhz: u16,
        ts_ms: u64,
        name: Option<String>,
        company_id: Option<u16>,
        hit_count: u32,
        first_ts_ms: u64,
        last_ts_ms: u64,
        addr_type: String,
    },
    WifiFrame {
        mac: String,
        oui: String,
        rssi: i8,
        channel: u8,
        freq_mhz: u16,
        ts_ms: u64,
        payload_hex: String,
    },
    BleAdv {
        mac: String,
        oui: String,
        rssi: i8,
        channel: u8,
        freq_mhz: u16,
        ts_ms: u64,
        payload_hex: String,
        name: Option<String>,
    },
}

/// An event with its text fields as character sequences.
pub enum EventView {
    Ack,
    Error { msg: Seq<char> },
    Status { chip: Option<Seq<char>>, body: Seq<char> },
    WifiAp {
        mac: Seq<char>,
        oui: Seq<char>,
        rssi: i8,
        channel: u8,
        freq_mhz: u16,
        ts_ms: u64,
        ssid: Seq<char>,
        hit_count: u32,
        first_ts_ms: u64,
        last_ts_ms: u64,
    },
    WifiSta {
        mac: Seq<char>,
        oui: Seq<char>,
        rssi: i8,
        channel: u8,
        freq_mhz: u16,
        ts_ms: u64,
        ssid: Option<Seq<char>>,
        hit_count: u32,
        first_ts_ms: u64,
        last_ts_ms: u64,
    },
    Ble {
        mac: Seq<char>,
        oui: Seq<char>,
        rssi: i8,
        channel: u8,
        freq_mhz: u16,
        ts_ms: u64,
        name: Option<Seq<char>>,
        company_id: Option<u16>,
        hit_count: u32,
        first_ts_ms: u64,
        last_ts_ms: u64,
        addr_type: Seq<char>,
    },
    WifiFrame {
        mac: Seq<char>,
        oui: Seq<char>,
        rssi: i8,
        channel: u8,
        freq_mhz: u16,
        ts_ms: u64,
        payload_hex: Seq<char>,
    },
    BleAdv {
        mac: Seq<char>,
        oui: Seq<char>,
        rssi: i8,
        channel: u8,
        freq_mhz: u16,
        ts_ms: u64,
        payload_hex: Seq<char>,
        name: Option<Seq<char>>,
    },
}

pub open spec fn opt_chars(o: Option<String>) -> Option<Seq<char>> {
    match o {
        Some(s) => Some(s@),
        None => None,
    }
}

pub open spec fn opt_str_chars(o: Option<&str>) -> Option<Seq<char>> {
    match o {
        Some(s) => Some(s@),
        None => None,
    }
}

impl View for Event {
    type V = EventView;

    open spec fn view(&self) -> EventView {
        match self {
            Event::Ack => EventView::Ack,
            Event::Error { msg } => EventView::Error { msg: msg@ },
            Event::Status(d) => EventView::Status { chip: opt_chars(d.chip), body: d.body@ },
            Event::WifiAp { mac, oui, rssi, channel, freq_mhz, ts_ms, ssid, hit_count, first_ts_ms, last_ts_ms } =>
                EventView::WifiAp {
                    mac: mac@,
                    oui: oui@,
                    rssi: *rssi,
                    channel: *channel,
                    freq_mhz: *freq_mhz,
                    ts_ms: *ts_ms,
                    ssid: ssid@,
                    hit_count: *hit_count,
                    first_ts_ms: *first_ts_ms,
                    last_ts_ms: *last_ts_ms,
                },
            Event::WifiSta { mac, oui, rssi, channel, freq_mhz, ts_ms, ssid, hit_count, first_ts_ms, last_ts_ms } =>
                EventView::WifiSta {
                    mac: mac@,
                    oui: oui@,
                    rssi: *rssi,
                    channel: *channel,
                    freq_mhz: *freq_mhz,
                    ts_ms: *ts_ms,
                    ssid: opt_chars(*ssid),
                    hit_count: *hit_count,
                    first_ts_ms: *first_ts_ms,
                    last_ts_ms: *last_ts_ms,
                },
            Event::Ble {
                mac,
                oui,
                rssi,
                channel,
                freq_mhz,
                ts_ms,
                name,
                company_id,
                hit_count,
                first_ts_ms,
                last_ts_ms,
                addr_type,
            } => EventView::Ble {
                mac: mac@,
                oui: oui@,
                rssi: *rssi,
                channel: *channel,
                freq_mhz: *freq_mhz,
                ts_ms: *ts_ms,
                name: opt_chars(*name),
                company_id: *company_id,
                hit_count: *hit_count,
                first_ts_ms: *first_ts_ms,
                last_ts_ms: *last_ts_ms,
                addr_type: addr_type@,
            },
            Event::WifiFrame { mac, oui, rssi, channel, freq_mhz, ts_ms, payload_hex } => EventView::WifiFrame {
                mac: mac@,
                oui: oui@,
                rssi: *rssi,
                channel: *channel,
                freq_mhz: *freq_mhz,
                ts_ms: *ts_ms,
                payload_hex: payload_hex@,
            },
            Event::BleAdv { mac, oui, rssi, channel, freq_mhz, ts_ms, payload_hex, name } => EventView::BleAdv {
                mac: mac@,
                oui: oui@,
                rssi: *rssi,
                channel: *channel,
                freq_mhz: *freq_mhz,
                ts_ms: *ts_ms,
                payload_hex: payload_hex@,
                name: opt_chars(*name),
            },
        }
    }
}

/// BLE advertisements are reported on advertising channel 39.
pub const BLE_ADV_CHANNEL: u8 = 39;
/// The centre frequency of channel 39.
pub const BLE_ADV_FREQ_MHZ: u16 = 2480;

/// How an address prints: `aa:bb:cc:dd:ee:ff`.
pub open spec fn mac_text(mac: Seq<u8>) -> Seq<char> {
    colon_hex(mac)
}

/// How the vendor prefix of an address prints: `aa:bb:cc`.
pub open spec fn oui_text(mac: Seq<u8>) -> Seq<char> {
    colon_hex(mac.take(3))
}

/// `public` or `random`.
pub open spec fn addr_type_text(addr_random: bool) -> Seq<char> {
    if addr_random { "random"@ } else { "public"@ }
}

pub open spec fn wifi_ap_view(
    mac: Seq<u8>,
    rssi: i8,
    channel: u8,
    freq_mhz: u16,
    ts_ms: u64,
    ssid: Seq<char>,
    hit_count: u32,
    first_ts_ms: u64,
    last_ts_ms: u64,
) -> EventView {
    EventView::WifiAp {
        mac: mac_text(mac),
        oui: oui_text(mac),
        rssi,
        channel,
        freq_mhz,
        ts_ms,
        ssid,
        hit_count,
        first_ts_ms,
        last_ts_ms,
    }
}

pub open spec fn wifi_sta_view(
    mac: Seq<u8>,
    rssi: i8,
    channel: u8,
    freq_mhz: u16,
    ts_ms: u64,
    ssid: Option<Seq<char>>,
    hit_count: u32,
    first_ts_ms: u64,
    last_ts_ms: u64,
) -> EventView {
    EventView::WifiSta {
        mac: mac_text(mac),
        oui: oui_text(mac),
        rssi,
        channel,
        freq_mhz,
        ts_ms,
        ssid,
        hit_count,
        first_ts_ms,
        last_ts_ms,
    }
}

pub open spec fn ble_disc_view(
    mac: Seq<u8>,
    rssi: i8,
    ts_ms: u64,
    name: Option<Seq<char>>,
    company_id: Option<u16>,
    hit_count: u32,
    first_ts_ms: u64,
    last_ts_ms: u64,
    addr_random: bool,
) -> EventView {
    EventView::Ble {
        mac: mac_text(mac),
        oui: oui_text(mac),
        rssi,
        channel: BLE_ADV_CHANNEL,
        freq_mhz: BLE_ADV_FREQ_MHZ,
        ts_ms,
        name,
        company_id,
        hit_count,
        first_ts_ms,
        last_ts_ms,
        addr_type: addr_type_text(addr_random),
    }
}

pub open spec fn wifi_frame_view(mac: Seq<u8>, rssi: i8, channel: u8, freq_mhz: u16, ts_ms: u64, payload: Seq<u8>) -> EventView {
    EventView::WifiFrame {
        mac: mac_text(mac),
        oui: oui_text(mac),
        rssi,
        channel,
        freq_mhz,
        ts_ms,
        payload_hex: plain_hex(payload),
    }
}

pub open spec fn ble_adv_view(mac: Seq<u8>, rssi: i8, ts_ms: u64, payload: Seq<u8>, name: Option<Seq<char>>) -> EventView {
    EventView::BleAdv {
        mac: mac_text(mac),
        oui: oui_text(mac),
        rssi,
        channel: BLE_ADV_CHANNEL,
        freq_mhz: BLE_ADV_FREQ_MHZ,
        ts_ms,
        payload_hex: plain_hex(payload),
        name,
    }
}

proof fn lemma_colon_hex_prefix(m: Seq<u8>, k: int)
    requires
        1 <= k <= m.len(),
    ensures
        colon_hex(m).len() == 3 * m.len() - 1,
        colon_hex(m).take(3 * k - 1) == colon_hex(m.take(k)),
    decreases m.len(),
{
    if m.len() == 1 {
        assert(m.take(1) =~= m);
        assert(colon_hex(m).take(2) =~= colon_hex(m));
    } else {
        let d = m.drop_last();
        if k == m.len() {
            lemma_colon_hex_prefix(d, d.len() as int);
            assert(m.take(k) =~= m);
            assert(colon_hex(m).take(3 * k - 1) =~= colon_hex(m));
        } else {
            lemma_colon_hex_prefix(d, k);
            assert(d.take(k) =~= m.take(k));
            assert(colon_hex(m).take(3 * k - 1) =~= colon_hex(d).take(3 * k - 1));
        }
    }
}

/// An event's `oui` is the first three octets of its `mac`, written the same
/// way: `mac` prints as 17 characters and `oui` is its first 8.
pub proof fn lemma_oui_is_mac_prefix(mac: Seq<u8>)
    requires
        mac.len() == 6,
    ensures
        mac_text(mac).len() == 17,
        oui_text(mac) == mac_text(mac).take(8),
{
    lemma_colon_hex_prefix(mac, 3);
}

fn opt_owned(o: Option<&str>) -> (r: Option<String>)
    ensures
        opt_chars(r) == opt_str_chars(o),
{
    match o {
        Some(s) => Some(owned(s)),
        None => None,
    }
}

fn mac_strings(mac: &[u8; 6]) -> (r: (String, String))
    ensures
        r.0@ == mac_text(mac@),
        r.1@ == oui_text(mac@),
{
    (format_mac(mac), format_oui(&oui_of(mac)))
}

/// An access point seen in discovery.
pub fn wifi_ap(
    mac: &[u8; 6],
    rssi: i8,
    channel: u8,
    freq_mhz: u16,
    ts_ms: u64,
    ssid: &str,
    hit_count: u32,
    first_ts_ms: u64,
    last_ts_ms: u64,
) -> (e: Event)
    ensures
        e@ == wifi_ap_view(mac@, rssi, channel, freq_mhz, ts_ms, ssid@, hit_count, first_ts_ms, last_ts_ms),
{
    let (m, o) = mac_strings(mac);
    Event::WifiAp {
        mac: m,
        oui: o,
        rssi,
        channel,
        freq_mhz,
        ts_ms,
        ssid: owned(ssid),
        hit_count,
        first_ts_ms,
        last_ts_ms,
    }
}

/// A station seen in discovery.
pub fn wifi_sta(
    mac: &[u8; 6],
    rssi: i8,
    channel: u8,
    freq_mhz: u16,
    ts_ms: u64,
    ssid: Option<&str>,
    hit_count: u32,
    first_ts_ms: u64,
    last_ts_ms: u64,
) -> (e: Event)
    ensures
        e@ == wifi_sta_view(mac@, rssi, channel, freq_mhz, ts_ms, opt_str_chars(ssid), hit_count, first_ts_ms, last_ts_ms),
{
    let (m, o) = mac_strings(mac);
    Event::WifiSta {
        mac: m,
        oui: o,
        rssi,
        channel,
        freq_mhz,
        ts_ms,
        ssid: opt_owned(ssid),
        hit_count,
        first_ts_ms,
        last_ts_ms,
    }
}

/// A BLE advertiser seen in discovery, reported on channel 39 (2480 MHz).
pub fn ble_disc(
    mac: &[u8; 6],
    rssi: i8,
    ts_ms: u64,
    name: Option<&str>,
    company_id: Option<u16>,
    hit_count: u32,
    first_ts_ms: u64,
    last_ts_ms: u64,
    addr_random: bool,
) -> (e: Event)
    ensures
        e@ == ble_disc_view(mac@, rssi, ts_ms, opt_str_chars(name), company_id, hit_count, first_ts_ms, last_ts_ms, addr_random),
{
    let (m, o) = mac_strings(mac);
    Event::Ble {
        mac: m,
        oui: o,
        rssi,
        channel: BLE_ADV_CHANNEL,
        freq_mhz: BLE_ADV_FREQ_MHZ,
        ts_ms,
        name: opt_owned(name),
        company_id,
        hit_count,
        first_ts_ms,
        last_ts_ms,
        addr_type: if addr_random { owned("random") } else { owned("public") },
    }
}

/// A captured WiFi frame, its bytes in hex.
pub fn wifi_frame(mac: &[u8; 6], rssi: i8, channel: u8, freq_mhz: u16, ts_ms: u64, payload: &[u8]) -> (e: Event)
    ensures
        e@ == wifi_frame_view(mac@, rssi, channel, freq_mhz, ts_ms, payload@),
{
    let (m, o) = mac_strings(mac);
    Event::WifiFrame { mac: m, oui: o, rssi, channel, freq_mhz, ts_ms, payload_hex: payload_hex(payload) }
}

/// A captured BLE advertisement, its data in hex.
pub fn ble_adv(mac: &[u8; 6], rssi: i8, ts_ms: u64, payload: &[u8], name: Option<&str>) -> (e: Event)
    ensures
        e@ == ble_adv_view(mac@, rssi, ts_ms, payload@, opt_str_chars(name)),
{
    let (m, o) = mac_strings(mac);
    Event::BleAdv {
        mac: m,
        oui: o,
        rssi,
        channel: BLE_ADV_CHANNEL,
        freq_mhz: BLE_ADV_FREQ_MHZ,
        ts_ms,
        payload_hex: payload_hex(payload),
        name: opt_owned(name),
    }
}

/// The acknowledgement of a command.
pub fn ack() -> (e: Event)
    ensures
        e@ == EventView::Ack,
{
    Event::Ack
}

/// An error reply carrying `msg`.
pub fn error_event(msg: &str) -> (e: Event)
    ensures
        e@ == (EventView::Error { msg: msg@ }),
{
    Event::Error { msg: owned(msg) }
}

/// How an event line is read, by its `event` name.
#[derive(Debug, Clone, Copy, PartialEq, Eq, Structural)]
pub enum EventName {
    /// One of the events with fixed fields.
    Typed,
    /// A `status` object, kept whole.
    Status,
    /// Not an event of this protocol.
    Unknown,
}

pub open spec fn event_name_of(name: Seq<char>) -> EventName {
    if name == "ack"@ || name == "error"@ || name == "wifi_ap"@ || name == "wifi_sta"@ || name == "ble"@
        || name == "wifi_frame"@ || name == "ble_adv"@ {
        EventName::Typed
    } else if name == "status"@ {
        EventName::Status
    } else {
        EventName::Unknown
    }
}

/// Classifies the `event` name of a line.
pub fn event_name(name: &str) -> (k: EventName)
    ensures
        k == event_name_of(name@),
{
    if same_text(name, "ack") || same_text(name, "error") || same_text(name, "wifi_ap") || same_text(name, "wifi_sta")
        || same_text(name, "ble") || same_text(name, "wifi_frame") || same_text(name, "ble_adv") {
        EventName::Typed
    } else if same_text(name, "status") {
        EventName::Status
    } else {
        EventName::Unknown
    }
}

} // verus!
