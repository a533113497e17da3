//! The firmware's decisions: what a command does to the configuration and
//! what it is answered, what a captured frame or advertisement turns into,
//! and how the hop task and the receive path step. The firmware performs the
//! radio and serial work and hands the results back here.
use vstd::prelude::*;
use crate::command::Command;
use crate::config::{
    chip_rejection, failure_error, opt_seq, opt_spec, reports, set_outcome, ConfigView, DeviceConfig,
    DropCounters, StatusReport,
};
use crate::error::{error_text, Error};
use crate::event::{ack, error_event, Event, EventView};
use crate::pcap::{
    encode_frame, frame_bytes, global_header_bytes, pcap_global_header, DLT_BLUETOOTH_LE_LL_WITH_PHDR,
    DLT_IEEE802_11_RADIO, TYPE_GLOBAL,
};
use crate::types::{freq_mhz, hop_plan, hop_sequence, spec_freq_mhz, Chip, HopChannel, Mode, OutputFormat, Radio};
use crate::event::{
    ble_adv, ble_adv_view, ble_disc, ble_disc_view, wifi_ap, wifi_ap_view, wifi_frame, wifi_frame_view, wifi_sta,
    wifi_sta_view, BLE_ADV_CHANNEL,
};
use crate::filter::{ble_passes, opt_str, wifi_passes};
use crate::pcap::{
    adv_pdu_bytes, ble_pcap_payload, btle_rf_bytes, radiotap_bytes, record_bytes, wifi_pcap_payload, TYPE_BLE, TYPE_WIFI,
};
use crate::ring::{min3, PushOutcome, WifiHdr, WifiRing, WifiSlot, WIFI_RING_SLOTS, WIFI_SNAP_LEN};
use crate::wifi::{
    frame_long_enough, parse_80211, spec_addr2, spec_discovery, spec_ssid, slots_of, slots_view, Discovery,
    ParsedWifi,
};
use crate::ble::opt_text;
use crate::pcap::push_bytes;
use crate::text::{chars_of, decode_lossy, string_of, trim_chars, trimmed, utf8_lossy};
use std::collections::HashMap;
use vstd::slice::{slice_subrange, slice_to_vec};

verus! {

/// Something the device writes to the host.
#[derive(Debug, Clone)]
pub enum Output {
    /// A JSON event line.
    Event(Event),
    /// A `status` line.
    Status(StatusReport),
    /// A framed binary chunk (`A5 5A | type | length | payload`).
    Frame(Vec<u8>),
}

pub open spec fn is_event(o: Output, ev: EventView) -> bool {
    o matches Output::Event(e) && e@ == ev
}

pub open spec fn is_frame(o: Output, bytes: Seq<u8>) -> bool {
    o matches Output::Frame(f) && f@ == bytes
}

/// The radio setting includes WiFi.
pub open spec fn wifi_radio(r: Radio) -> bool {
    r == Radio::Wifi || r == Radio::Both
}

/// The radio setting includes BLE.
pub open spec fn ble_radio(r: Radio) -> bool {
    r == Radio::Ble || r == Radio::Both
}

/// Which radios listen: WiFi promiscuous mode and the BLE scan each run only
/// while the device is running with that radio selected.
pub fn radios_enabled(cfg: &DeviceConfig) -> (r: (bool, bool))
    ensures
        r.0 == (cfg.running && wifi_radio(cfg.radio)),
        r.1 == (cfg.running && ble_radio(cfg.radio)),
{
    let wifi = cfg.running && (cfg.radio == Radio::Wifi || cfg.radio == Radio::Both);
    let ble = cfg.running && (cfg.radio == Radio::Ble || cfg.radio == Radio::Both);
    (wifi, ble)
}

/// The PCAP global headers sent on `start` in PCAP format: the WiFi one
/// (DLT 127) when WiFi is selected, then the BLE one (DLT 256) when BLE is.
pub open spec fn start_headers(v: ConfigView) -> Seq<Seq<u8>> {
    if v.format == OutputFormat::Pcap {
        (if wifi_radio(v.radio) {
            seq![frame_bytes(TYPE_GLOBAL, global_header_bytes(DLT_IEEE802_11_RADIO))]
        } else {
            Seq::<Seq<u8>>::empty()
        }) + (if ble_radio(v.radio) {
            seq![frame_bytes(TYPE_GLOBAL, global_header_bytes(DLT_BLUETOOTH_LE_LL_WITH_PHDR))]
        } else {
            Seq::<Seq<u8>>::empty()
        })
    } else {
        Seq::empty()
    }
}

/// An acknowledgement followed by the given frames.
pub open spec fn ack_then_frames(outs: Seq<Output>, frames: Seq<Seq<u8>>) -> bool {
    &&& outs.len() == 1 + frames.len()
    &&& is_event(outs[0], EventView::Ack)
    &&& forall|k: int| 0 <= k < frames.len() ==> is_frame(#[trigger] outs[k + 1], frames[k])
}

/// A single error line with message `msg`.
pub open spec fn error_reply(outs: Seq<Output>, msg: Seq<char>) -> bool {
    outs.len() == 1 && is_event(outs[0], EventView::Error { msg })
}

/// The answer to a `set`: the fields change as `set_outcome` says (also when
/// the chip then refuses the result); the reply is an acknowledgement, and the
/// configuration is to be saved, only when the fields were valid and the chip
/// accepts them; otherwise it is one error line.
pub open spec fn set_reply(
    old_v: ConfigView,
    new_v: ConfigView,
    outs: Seq<Output>,
    persist: bool,
    chip: Chip,
    c: Command,
) -> bool {
    match c {
        Command::SetConfig {
            radio,
            mode,
            format,
            wifi_band,
            dwell_ms,
            hopmask,
            channels_5ghz,
            ble_interval_ms,
            ble_window_ms,
            ble_active,
            wifi_types,
            filters,
        } => {
            let o = set_outcome(old_v, radio, mode, format, wifi_band, dwell_ms, hopmask, opt_seq(channels_5ghz),
                ble_interval_ms, ble_window_ms, ble_active, opt_seq(wifi_types), opt_spec(filters));
            &&& new_v == o.0
            &&& match o.1 {
                None => match chip_rejection(chip, o.0.wifi_band, o.0.channels_5ghz.len()) {
                    None => persist && outs.len() == 1 && is_event(outs[0], EventView::Ack),
                    Some(m) => !persist && error_reply(outs, m),
                },
                Some(f) => !persist && exists|e: Error| failure_error(f, opt_spec(filters), e) && #[trigger] error_reply(outs, error_text(e)),
            }
        },
        _ => false,
    }
}

/// Carries out one parsed command line. `get` and `status` are answered with
/// the status; `start` and `stop` set `running` and are acknowledged (`start`
/// in PCAP format also sends the PCAP global headers); `set` is described by
/// `set_reply`. An unknown command is ignored; any other parse error is
/// answered with its message. The flag says whether the configuration is to
/// be saved.
pub fn apply_command(cfg: &mut DeviceConfig, parsed: Result<Command, Error>, chip: Chip, drops: &DropCounters) -> (r: (
    Vec<Output>,
    bool,
))
    ensures
        match parsed {
            Ok(Command::Get) | Ok(Command::Status) => {
                &&& final(cfg).spec_view() == old(cfg).spec_view()
                &&& !r.1
                &&& r.0@.len() == 1
                &&& r.0@[0] matches Output::Status(s) && reports(s, old(cfg).spec_view(), chip, *drops)
            },
            Ok(Command::Start) => {
                &&& final(cfg).spec_view() == (ConfigView { running: true, ..old(cfg).spec_view() })
                &&& r.1
                &&& ack_then_frames(r.0@, start_headers(old(cfg).spec_view()))
            },
            Ok(Command::Stop) => {
                &&& final(cfg).spec_view() == (ConfigView { running: false, ..old(cfg).spec_view() })
                &&& r.1
                &&& ack_then_frames(r.0@, Seq::empty())
            },
            Ok(c) => set_reply(old(cfg).spec_view(), final(cfg).spec_view(), r.0@, r.1, chip, c),
            Err(Error::UnknownCommand) => {
                &&& final(cfg).spec_view() == old(cfg).spec_view()
                &&& !r.1
                &&& r.0@.len() == 0
            },
            Err(e) => {
                &&& final(cfg).spec_view() == old(cfg).spec_view()
                &&& !r.1
                &&& error_reply(r.0@, error_text(e))
            },
        },
{
    let mut outs: Vec<Output> = Vec::new();
    match parsed {
        Ok(Command::Get) | Ok(Command::Status) => {
            outs.push(Output::Status(cfg.status(chip, drops)));
            (outs, false)
        },
        Ok(Command::Start) => {
            cfg.running = true;
            outs.push(Output::Event(ack()));
            if cfg.format == OutputFormat::Pcap {
                if cfg.radio == Radio::Wifi || cfg.radio == Radio::Both {
                    let h = pcap_global_header(DLT_IEEE802_11_RADIO);
                    outs.push(Output::Frame(encode_frame(TYPE_GLOBAL, &h)));
                }
                if cfg.radio == Radio::Ble || cfg.radio == Radio::Both {
                    let h = pcap_global_header(DLT_BLUETOOTH_LE_LL_WITH_PHDR);
                    outs.push(Output::Frame(encode_frame(TYPE_GLOBAL, &h)));
                }
            }
            proof {
                let hs = start_headers(old(cfg).spec_view());
                assert forall|k: int| 0 <= k < hs.len() implies is_frame(#[trigger] outs@[k + 1], hs[k]) by {}
            }
            (outs, true)
        },
        Ok(Command::Stop) => {
            cfg.running = false;
            outs.push(Output::Event(ack()));
            (outs, true)
        },
        Ok(
            Command::SetConfig {
                radio,
                mode,
                format,
                wifi_band,
                dwell_ms,
                hopmask,
                channels_5ghz,
                ble_interval_ms,
                ble_window_ms,
                ble_active,
                wifi_types,
                filters,
            },
        ) => {
            match cfg.apply_set(
                radio,
                mode,
                format,
                wifi_band,
                dwell_ms,
                hopmask,
                channels_5ghz,
                ble_interval_ms,
                ble_window_ms,
                ble_active,
                wifi_types,
                filters,
            ) {
                Ok(()) => match cfg.validate_for_chip(chip) {
                    Ok(()) => {
                        outs.push(Output::Event(ack()));
                        (outs, true)
                    },
                    Err(e) => {
                        let msg = e.message();
                        outs.push(Output::Event(error_event(msg.as_str())));
                        (outs, false)
                    },
                },
                Err(e) => {
                    let msg = e.message();
                    outs.push(Output::Event(error_event(msg.as_str())));
                    assert(error_reply(outs@, error_text(e)));
                    (outs, false)
                },
            }
        },
        Err(Error::UnknownCommand) => (outs, false),
        Err(e) => {
            let msg = e.message();
            outs.push(Output::Event(error_event(msg.as_str())));
            (outs, false)
        },
    }
}

/// A device seen again within this many milliseconds of its last report is
/// not reported again (unless, for WiFi, its signal changed).
pub const DEDUP_COOLDOWN_MS: u64 = 5000;
/// A WiFi signal change of at least this many dB is reported at once.
pub const RSSI_JUMP_DB: i16 = 6;

/// What discovery remembers of one device.
#[derive(Debug, Clone, Copy, PartialEq, Eq, Structural)]
pub struct Dedup {
    pub first: u64,
    pub last: u64,
    pub hits: u32,
    pub rssi: i8,
    pub last_emit: u64,
}

/// What is written out, as plain values.
pub enum Emitted {
    Line(EventView),
    Chunk(Seq<u8>),
}

pub open spec fn emitted(o: Output, e: Emitted) -> bool {
    match e {
        Emitted::Line(ev) => is_event(o, ev),
        Emitted::Chunk(b) => is_frame(o, b),
    }
}

/// The outputs are exactly `es`, in order.
pub open spec fn emits(outs: Seq<Output>, es: Seq<Emitted>) -> bool {
    &&& outs.len() == es.len()
    &&& forall|k: int| 0 <= k < es.len() ==> emitted(#[trigger] outs[k], es[k])
}

/// The table key of an address: its six octets as a little-endian number.
pub open spec fn mac_key(mac: Seq<u8>) -> u64 {
    (mac[0] + 0x100 * mac[1] + 0x1_0000 * mac[2] + 0x100_0000 * mac[3] + 0x1_0000_0000 * mac[4]
        + 0x100_0000_0000 * mac[5]) as u64
}

fn key_of(mac: &[u8; 6]) -> (k: u64)
    ensures
        k == mac_key(mac@),
{
    (mac[0] as u64) + 0x100 * (mac[1] as u64) + 0x1_0000 * (mac[2] as u64) + 0x100_0000 * (mac[3] as u64)
        + 0x1_0000_0000 * (mac[4] as u64) + 0x100_0000_0000 * (mac[5] as u64)
}

/// The remembered entry for `key`, if any.
pub open spec fn entry(m: Map<u64, Dedup>, key: u64) -> Option<Dedup> {
    if m.contains_key(key) {
        Some(m[key])
    } else {
        None
    }
}

pub open spec fn rssi_gap(a: i8, b: i8) -> int {
    if a >= b {
        a - b
    } else {
        b - a
    }
}

/// One sighting at `ts_ms` with signal `rssi`: a new device starts with this
/// time as first and last seen; the hit count goes up by one (saturating), the
/// last-seen time is updated, and so is the remembered signal where the signal
/// rule applies. The sighting is reported when the
/// device was never reported (no report time), when the cooldown since the last
/// report has passed, or, where the signal rule applies, when the signal moved
/// by at least 6 dB; a report records its time.
pub open spec fn sighting(prev: Option<Dedup>, ts_ms: u64, rssi: i8, signal_rule: bool) -> (Dedup, bool) {
    let e = match prev {
        Some(d) => d,
        None => Dedup { first: ts_ms, last: ts_ms, hits: 0, rssi, last_emit: 0 },
    };
    let hits = if e.hits == u32::MAX { e.hits } else { (e.hits + 1) as u32 };
    let jump = signal_rule && rssi_gap(e.rssi, rssi) >= RSSI_JUMP_DB;
    let since = if ts_ms >= e.last_emit { ts_ms - e.last_emit } else { 0 };
    let quiet = e.last_emit != 0 && since < DEDUP_COOLDOWN_MS && !jump;
    let kept = if signal_rule { rssi } else { e.rssi };
    if quiet {
        (Dedup { hits, last: ts_ms, rssi: kept, ..e }, false)
    } else {
        (Dedup { hits, last: ts_ms, rssi: kept, last_emit: ts_ms, ..e }, true)
    }
}

/// Records a sighting of `key` in the table and returns the updated entry
/// when the sighting is to be reported.
pub fn observe(table: &mut HashMap<u64, Dedup>, key: u64, ts_ms: u64, rssi: i8, signal_rule: bool) -> (r: Option<Dedup>)
    ensures
        ({
            let s = sighting(entry(old(table)@, key), ts_ms, rssi, signal_rule);
            &&& final(table)@ == old(table)@.insert(key, s.0)
            &&& r == (if s.1 { Some(s.0) } else { None })
        }),
{
    broadcast use vstd::std_specs::hash::group_hash_axioms;
    let prev: Option<Dedup> = match table.get(&key) {
        Some(d) => Some(*d),
        None => None,
    };
    let mut e = match prev {
        Some(d) => d,
        None => Dedup { first: ts_ms, last: ts_ms, hits: 0, rssi, last_emit: 0 },
    };
    e.hits = e.hits.saturating_add(1);
    e.last = ts_ms;
    let diff: i16 = (e.rssi as i16) - (rssi as i16);
    let jump = signal_rule && (diff >= RSSI_JUMP_DB || diff <= -RSSI_JUMP_DB);
    if signal_rule {
        e.rssi = rssi;
    }
    let since = ts_ms.saturating_sub(e.last_emit);
    if e.last_emit != 0 && since < DEDUP_COOLDOWN_MS && !jump {
        table.insert(key, e);
        return None;
    }
    e.last_emit = ts_ms;
    table.insert(key, e);
    Some(e)
}

/// The SSID an access point is reported with: empty when the frame has none.
pub open spec fn ssid_or_empty(ssid: Option<Seq<char>>) -> Seq<char> {
    match ssid {
        Some(s) => s,
        None => Seq::empty(),
    }
}

/// The discovery report for one revealed device.
pub open spec fn discovery_event(is_ap: bool, mac: Seq<u8>, h: WifiHdr, ssid: Option<Seq<char>>, d: Dedup) -> EventView {
    if is_ap {
        wifi_ap_view(mac, h.rssi, h.channel, h.freq_mhz, h.ts_ms, ssid_or_empty(ssid), d.hits, d.first, d.last)
    } else {
        wifi_sta_view(mac, h.rssi, h.channel, h.freq_mhz, h.ts_ms, ssid, d.hits, d.first, d.last)
    }
}

/// Sightings of the revealed devices, in order, with the WiFi signal rule;
/// the reports are written only in JSON format.
pub open spec fn discover_all(
    m: Map<u64, Dedup>,
    found: Seq<(bool, Seq<u8>)>,
    h: WifiHdr,
    ssid: Option<Seq<char>>,
    json: bool,
) -> (Map<u64, Dedup>, Seq<Emitted>)
    decreases found.len(),
{
    if found.len() == 0 {
        (m, Seq::empty())
    } else {
        let prev = discover_all(m, found.drop_last(), h, ssid, json);
        let (is_ap, mac) = found.last();
        let key = mac_key(mac);
        let s = sighting(entry(prev.0, key), h.ts_ms, h.rssi, true);
        (
            prev.0.insert(key, s.0),
            if s.1 && json {
                prev.1.push(Emitted::Line(discovery_event(is_ap, mac, h, ssid, s.0)))
            } else {
                prev.1
            },
        )
    }
}

/// What a captured WiFi frame turns into. A frame too short to parse, or one
/// the filters refuse (by transmitter address and SSID), gives nothing. In
/// capture mode every frame is written, as a `wifi_frame` line or as a framed
/// PCAP record (radiotap header and the frame). In discovery mode each device
/// the frame reveals is sighted in turn.
pub open spec fn wifi_decision(v: ConfigView, m: Map<u64, Dedup>, h: WifiHdr, frame: Seq<u8>) -> (Map<u64, Dedup>, Seq<Emitted>) {
    if !frame_long_enough(frame) || !wifi_passes(v.filters, spec_addr2(frame), spec_ssid(frame)) {
        (m, Seq::empty())
    } else if v.mode == Mode::Capture {
        if v.format == OutputFormat::Json {
            (m, seq![Emitted::Line(wifi_frame_view(spec_addr2(frame), h.rssi, h.channel, h.freq_mhz, h.ts_ms, frame))])
        } else {
            (m, seq![Emitted::Chunk(frame_bytes(TYPE_WIFI, record_bytes(h.ts_ms, radiotap_bytes(h.ts_ms, h.freq_mhz, h.is_5ghz, h.rssi, h.rate) + frame)))])
        }
    } else {
        discover_all(m, spec_discovery(frame), h, spec_ssid(frame), v.format == OutputFormat::Json)
    }
}

pub open spec fn found_view(v: Seq<(bool, [u8; 6])>) -> Seq<(bool, Seq<u8>)> {
    v.map_values(|x: (bool, [u8; 6])| (x.0, x.1@))
}

fn found_list(p: &ParsedWifi, Ghost(list): Ghost<Seq<(bool, Seq<u8>)>>) -> (v: Vec<(bool, [u8; 6])>)
    requires
        slots_view(p.discovery) == slots_of(list),
        list.len() <= 3,
    ensures
        found_view(v@) == list,
{
    let mut v: Vec<(bool, [u8; 6])> = Vec::new();
    let mut k: usize = 0;
    while k < 3
        invariant
            k <= 3,
            slots_view(p.discovery) == slots_of(list),
            list.len() <= 3,
            found_view(v@) == list.take(if (k as int) < list.len() { k as int } else { list.len() as int }),
        decreases 3 - k,
    {
        assert(slots_of(list)[k as int] == slots_view(p.discovery)[k as int]);
        let ghost pre = v@;
        proof {
            if (k as int) < list.len() {
                assert(list.take(k + 1) == list.take(k as int).push(list[k as int]));
            }
        }
        match p.discovery[k] {
            Some(Discovery::Ap { bssid }) => {
                v.push((true, bssid));
                assert(found_view(v@) =~= found_view(pre).push((true, bssid@)));
            },
            Some(Discovery::Sta { mac }) => {
                v.push((false, mac));
                assert(found_view(v@) =~= found_view(pre).push((false, mac@)));
            },
            None => {},
        }
        k += 1;
        assert(found_view(v@) =~= list.take(if (k as int) < list.len() { k as int } else { list.len() as int }));
    }
    assert(list.take(list.len() as int) == list);
    v
}

/// Turns one captured WiFi frame into output (see `wifi_decision`).
pub fn wifi_output(cfg: &DeviceConfig, table: &mut HashMap<u64, Dedup>, slot: &WifiSlot) -> (outs: Vec<Output>)
    requires
        slot.len <= WIFI_SNAP_LEN,
        slot.hdr.ts_ms <= u64::MAX / 1000,
    ensures
        ({
            let d = wifi_decision(cfg.spec_view(), old(table)@, slot.hdr, slot.payload@.take(slot.len as int));
            &&& final(table)@ == d.0
            &&& emits(outs@, d.1)
        }),
{
    let frame = slot.payload();
    let parsed = match parse_80211(frame) {
        Ok(p) => p,
        Err(_) => return Vec::new(),
    };
    let mac = parsed.addr2;
    let ssid: Option<&str> = match &parsed.ssid {
        Some(t) => Some(t.as_str()),
        None => None,
    };
    assert(opt_str(ssid) == spec_ssid(frame@));
    if !cfg.filters.matches_wifi(&mac, ssid) {
        return Vec::new();
    }
    let h = slot.hdr;
    let mut outs: Vec<Output> = Vec::new();
    if cfg.mode == Mode::Capture {
        if cfg.format == OutputFormat::Json {
            outs.push(Output::Event(wifi_frame(&mac, h.rssi, h.channel, h.freq_mhz, h.ts_ms, frame)));
        } else {
            let rec = wifi_pcap_payload(h.ts_ms, h.freq_mhz, h.is_5ghz, h.rssi, h.rate, frame);
            outs.push(Output::Frame(encode_frame(TYPE_WIFI, rec.as_slice())));
        }
        assert(emitted(outs@[0], wifi_decision(cfg.spec_view(), old(table)@, h, frame@).1[0]));
        return outs;
    }
    let ghost list = spec_discovery(frame@);
    assert(list.len() <= 2);
    let found = found_list(&parsed, Ghost(list));
    let json = cfg.format == OutputFormat::Json;
    let ap_ssid: &str = match ssid {
        Some(t) => t,
        None => "",
    };
    proof {
        reveal_strlit("");
    }
    assert(ap_ssid@ == ssid_or_empty(spec_ssid(frame@)));
    let ghost m0 = old(table)@;
    let ghost sv = spec_ssid(frame@);
    let mut i: usize = 0;
    while i < found.len()
        invariant
            i <= found@.len(),
            found_view(found@) == list,
            ap_ssid@ == ssid_or_empty(sv),
            opt_str(ssid) == sv,
            table@ == discover_all(m0, list.take(i as int), h, sv, json).0,
            emits(outs@, discover_all(m0, list.take(i as int), h, sv, json).1),
        decreases found@.len() - i,
    {
        let ghost pre = discover_all(m0, list.take(i as int), h, sv, json);
        let ghost old_outs = outs@;
        assert(list.take(i + 1).drop_last() == list.take(i as int));
        assert(list.take(i + 1).last() == list[i as int]);
        let (is_ap, m) = found[i];
        assert(list[i as int] == (is_ap, m@));
        let key = key_of(&m);
        match observe(table, key, h.ts_ms, h.rssi, true) {
            Some(d) => {
                if json {
                    let ev = if is_ap {
                        wifi_ap(&m, h.rssi, h.channel, h.freq_mhz, h.ts_ms, ap_ssid, d.hits, d.first, d.last)
                    } else {
                        wifi_sta(&m, h.rssi, h.channel, h.freq_mhz, h.ts_ms, ssid, d.hits, d.first, d.last)
                    };
                    outs.push(Output::Event(ev));
                    let ghost post = discover_all(m0, list.take(i + 1), h, sv, json);
                    assert(post.1 == pre.1.push(Emitted::Line(discovery_event(is_ap, m@, h, sv, d))));
                    assert forall|k: int| 0 <= k < post.1.len() implies emitted(#[trigger] outs@[k], post.1[k]) by {
                        if k < old_outs.len() {
                            assert(outs@[k] == old_outs[k]);
                        }
                    }
                }
            },
            None => {},
        }
        i += 1;
    }
    assert(list.take(list.len() as int) == list);
    outs
}

/// A received BLE advertisement, as the scan task queues it.
#[derive(Debug, Clone)]
pub struct BlePkt {
    pub addr: [u8; 6],
    pub addr_random: bool,
    pub rssi: i8,
    pub ts_ms: u64,
    pub name: Option<String>,
    pub company_id: Option<u16>,
    pub adv: Vec<u8>,
}

/// What a BLE advertisement turns into. One the filters refuse gives nothing.
/// In capture mode every advertisement is written, as a `ble_adv` line or as a
/// framed PCAP record (RF header for channel 39 and the rebuilt PDU). In
/// discovery mode the advertiser is sighted without the signal rule, and a
/// report is a `ble` line whatever the output format.
pub open spec fn ble_decision(v: ConfigView, m: Map<u64, Dedup>, p: BlePkt) -> (Map<u64, Dedup>, Seq<Emitted>) {
    if !ble_passes(v.filters, p.addr@, opt_text(p.name), p.company_id) {
        (m, Seq::empty())
    } else if v.mode == Mode::Capture {
        if v.format == OutputFormat::Json {
            (m, seq![Emitted::Line(ble_adv_view(p.addr@, p.rssi, p.ts_ms, p.adv@, opt_text(p.name)))])
        } else {
            (m, seq![Emitted::Chunk(frame_bytes(TYPE_BLE, record_bytes(p.ts_ms, btle_rf_bytes(p.rssi, BLE_ADV_CHANNEL) + adv_pdu_bytes(p.addr@, p.addr_random, p.adv@))))])
        }
    } else {
        let key = mac_key(p.addr@);
        let s = sighting(entry(m, key), p.ts_ms, p.rssi, false);
        (
            m.insert(key, s.0),
            if s.1 {
                seq![Emitted::Line(ble_disc_view(p.addr@, p.rssi, p.ts_ms, opt_text(p.name), p.company_id, s.0.hits, s.0.first, s.0.last, p.addr_random))]
            } else {
                Seq::empty()
            },
        )
    }
}

/// Turns one BLE advertisement into output (see `ble_decision`).
pub fn ble_output(cfg: &DeviceConfig, table: &mut HashMap<u64, Dedup>, pkt: &BlePkt) -> (outs: Vec<Output>)
    ensures
        ({
            let d = ble_decision(cfg.spec_view(), old(table)@, *pkt);
            &&& final(table)@ == d.0
            &&& emits(outs@, d.1)
        }),
{
    let name: Option<&str> = match &pkt.name {
        Some(t) => Some(t.as_str()),
        None => None,
    };
    assert(opt_str(name) == opt_text(pkt.name));
    let mut outs: Vec<Output> = Vec::new();
    if !cfg.filters.matches_ble(&pkt.addr, name, pkt.company_id) {
        return outs;
    }
    if cfg.mode == Mode::Capture {
        if cfg.format == OutputFormat::Json {
            outs.push(Output::Event(ble_adv(&pkt.addr, pkt.rssi, pkt.ts_ms, pkt.adv.as_slice(), name)));
        } else {
            let rec = ble_pcap_payload(pkt.ts_ms, pkt.rssi, BLE_ADV_CHANNEL, &pkt.addr, pkt.addr_random, pkt.adv.as_slice());
            outs.push(Output::Frame(encode_frame(TYPE_BLE, rec.as_slice())));
        }
        assert(emitted(outs@[0], ble_decision(cfg.spec_view(), old(table)@, *pkt).1[0]));
        return outs;
    }
    let key = key_of(&pkt.addr);
    match observe(table, key, pkt.ts_ms, pkt.rssi, false) {
        Some(d) => {
            outs.push(
                Output::Event(
                    ble_disc(&pkt.addr, pkt.rssi, pkt.ts_ms, name, pkt.company_id, d.hits, d.first, d.last, pkt.addr_random),
                ),
            );
            assert(emitted(outs@[0], ble_decision(cfg.spec_view(), old(table)@, *pkt).1[0]));
        },
        None => {},
    }
    outs
}

/// Frames in the order they were captured, each through `wifi_decision`,
/// the discovery table carried from one to the next.
pub open spec fn wifi_fold(v: ConfigView, m: Map<u64, Dedup>, frames: Seq<WifiSlot>) -> (Map<u64, Dedup>, Seq<Emitted>)
    decreases frames.len(),
{
    if frames.len() == 0 {
        (m, Seq::empty())
    } else {
        let prev = wifi_fold(v, m, frames.drop_last());
        let f = frames.last();
        let d = wifi_decision(v, prev.0, f.hdr, f.payload@.take(f.len as int));
        (d.0, prev.1 + d.1)
    }
}

/// One pass of the firmware loop over the WiFi queue: while WiFi listens, up
/// to one ring's worth of queued frames are taken and turned into output in
/// order; otherwise the queue is emptied and nothing is written.
pub fn drain_wifi(cfg: &DeviceConfig, ring: &mut WifiRing, table: &mut HashMap<u64, Dedup>) -> (outs: Vec<Output>)
    requires
        old(ring).wf(),
        forall|k: int| 0 <= k < old(ring).frames().len() ==> (#[trigger] old(ring).frames()[k]).hdr.ts_ms <= u64::MAX / 1000,
    ensures
        final(ring).wf(),
        !(cfg.running && wifi_radio(cfg.radio)) ==> final(ring).frames().len() == 0 && final(table)@ == old(table)@
            && outs@.len() == 0,
        cfg.running && wifi_radio(cfg.radio) ==> ({
            let n = if old(ring).frames().len() < WIFI_RING_SLOTS { old(ring).frames().len() as int } else { WIFI_RING_SLOTS as int };
            let d = wifi_fold(cfg.spec_view(), old(table)@, old(ring).frames().take(n));
            &&& final(ring).frames() == old(ring).frames().skip(n)
            &&& final(table)@ == d.0
            &&& emits(outs@, d.1)
        }),
{
    let mut outs: Vec<Output> = Vec::new();
    let ghost f0 = ring.frames();
    if !(cfg.running && (cfg.radio == Radio::Wifi || cfg.radio == Radio::Both)) {
        while ring.len() > 0
            invariant
                ring.wf(),
            decreases ring.frames().len(),
        {
            ring.try_pop();
        }
        return outs;
    }
    let ghost m0 = table@;
    let mut k: usize = 0;
    assert(f0.skip(0) =~= f0);
    while k < WIFI_RING_SLOTS
        invariant_except_break
            k <= WIFI_RING_SLOTS,
            k <= f0.len(),
            ring.wf(),
            ring.frames() == f0.skip(k as int),
            forall|j: int| 0 <= j < f0.len() ==> (#[trigger] f0[j]).hdr.ts_ms <= u64::MAX / 1000,
            table@ == wifi_fold(cfg.spec_view(), m0, f0.take(k as int)).0,
            emits(outs@, wifi_fold(cfg.spec_view(), m0, f0.take(k as int)).1),
        ensures
            ring.wf(),
            ({
                let n = if f0.len() < WIFI_RING_SLOTS { f0.len() as int } else { WIFI_RING_SLOTS as int };
                let d = wifi_fold(cfg.spec_view(), m0, f0.take(n));
                &&& ring.frames() == f0.skip(n)
                &&& table@ == d.0
                &&& emits(outs@, d.1)
            }),
        decreases WIFI_RING_SLOTS - k,
    {
        let slot = match ring.try_pop() {
            Some(s) => s,
            None => {
                assert(k == f0.len());
                break;
            },
        };
        assert(slot == f0[k as int]);
        let ghost prev = wifi_fold(cfg.spec_view(), m0, f0.take(k as int));
        assert(f0.take(k + 1).drop_last() == f0.take(k as int));
        assert(f0.take(k + 1).last() == f0[k as int]);
        let mut more = wifi_output(cfg, table, &slot);
        let ghost before = outs@;
        let ghost added = more@;
        outs.append(&mut more);
        assert(outs@ == before + added);
        proof {
            let d = wifi_decision(cfg.spec_view(), prev.0, slot.hdr, slot.payload@.take(slot.len as int));
            let all = prev.1 + d.1;
            assert(wifi_fold(cfg.spec_view(), m0, f0.take(k + 1)).1 == all);
            assert forall|j: int| 0 <= j < all.len() implies emitted(#[trigger] outs@[j], all[j]) by {
                if j < before.len() {
                    assert(outs@[j] == before[j]);
                } else {
                    assert(outs@[j] == added[j - before.len()]);
                }
            }
            assert(f0.skip(k + 1) =~= f0.skip(k as int).drop_first());
        }
        k += 1;
    }
    outs
}

/// One step of the hop task: the channel to tune (if any), the next position
/// in the hop sequence, and how long to wait.
#[derive(Debug, Clone, Copy, PartialEq, Eq, Structural)]
pub struct HopStep {
    pub channel: Option<u8>,
    pub next_index: usize,
    pub delay_ms: u16,
}

/// The hop task tunes only while WiFi listens and the hop sequence is not
/// empty: it tunes entry `index mod length` and moves past it. It then waits
/// the configured dwell time.
pub fn hop_step(cfg: &DeviceConfig, index: usize) -> (r: HopStep)
    ensures
        ({
            let plan = hop_plan(cfg.wifi_band, cfg.hopmask, cfg.channels_5ghz@);
            let on = cfg.running && wifi_radio(cfg.radio);
            &&& on && plan.len() > 0 ==> r.channel == Some(plan[(index as int) % (plan.len() as int)].channel)
                && r.next_index == (index as int) % (plan.len() as int) + 1
            &&& !(on && plan.len() > 0) ==> r.channel is None && r.next_index == index
            &&& r.delay_ms == cfg.dwell_ms
        }),
{
    let seq: Vec<HopChannel> = match hop_sequence(cfg.wifi_band, cfg.hopmask, cfg.channels_5ghz.as_slice()) {
        Ok(v) => v,
        Err(_) => Vec::new(),
    };
    let on = cfg.running && (cfg.radio == Radio::Wifi || cfg.radio == Radio::Both);
    let delay_ms = cfg.dwell_ms;
    if on && seq.len() > 0 {
        let at = index % seq.len();
        HopStep { channel: Some(seq[at].channel), next_index: at + 1, delay_ms }
    } else {
        HopStep { channel: None, next_index: index, delay_ms }
    }
}

/// What the receive callback did with a frame.
#[derive(Debug, Clone, Copy, PartialEq, Eq, Structural)]
pub enum RxOutcome {
    /// WiFi is not listening.
    Ignored,
    /// A frame of the miscellaneous kind, counted as truncated.
    Misc,
    /// The ring was full; the frame is counted as a ring overflow.
    Dropped,
    /// The frame was queued; a frame cut to the snapshot length is counted as truncated.
    Queued { truncated: bool },
}

/// Counter `c` after one more event, wrapping around at 2^32.
pub open spec fn bump(c: u32) -> u32 {
    if c == u32::MAX { 0 } else { (c + 1) as u32 }
}

/// The receive callback: while WiFi listens, a miscellaneous frame only bumps
/// the truncation counter; any other frame is queued with its header (a
/// channel of 32 or more is a 5 GHz channel) and at most the snapshot length
/// of its bytes. A full ring bumps the overflow counter, a cut frame the
/// truncation counter.
pub fn record_rx(
    ring: &mut WifiRing,
    drops: &mut DropCounters,
    wifi_on: bool,
    misc: bool,
    rssi: i8,
    channel: u8,
    rate: u8,
    ts_ms: u64,
    payload: &[u8],
    sig_len: usize,
) -> (r: RxOutcome)
    requires
        old(ring).wf(),
    ensures
        final(ring).wf(),
        !wifi_on ==> r == RxOutcome::Ignored && final(ring).frames() == old(ring).frames() && *final(drops) == *old(drops),
        wifi_on && misc ==> r == RxOutcome::Misc && final(ring).frames() == old(ring).frames() && *final(drops) == (
        DropCounters { truncated: bump(old(drops).truncated), ..*old(drops) }),
        wifi_on && !misc && old(ring).frames().len() == WIFI_RING_SLOTS ==> r == RxOutcome::Dropped && final(ring).frames()
            == old(ring).frames() && *final(drops) == (DropCounters { ring_overflow: bump(old(drops).ring_overflow), ..*old(drops) }),
        wifi_on && !misc && old(ring).frames().len() < WIFI_RING_SLOTS ==> ({
            let copy = min3(payload@.len() as int, sig_len as int, WIFI_SNAP_LEN as int);
            let f = final(ring).frames();
            let is_5ghz = channel >= 32;
            &&& r == RxOutcome::Queued { truncated: copy < sig_len }
            &&& f.len() == old(ring).frames().len() + 1
            &&& f.take(f.len() - 1) == old(ring).frames()
            &&& f.last().hdr == (WifiHdr { rssi, channel, freq_mhz: spec_freq_mhz(channel, is_5ghz), is_5ghz, rate, ts_ms })
            &&& f.last().len == copy
            &&& f.last().payload@.take(copy) == payload@.take(copy)
            &&& *final(drops) == (if copy < sig_len {
                DropCounters { truncated: bump(old(drops).truncated), ..*old(drops) }
            } else {
                *old(drops)
            })
        }),
{
    if !wifi_on {
        return RxOutcome::Ignored;
    }
    if misc {
        drops.truncated = drops.truncated.wrapping_add(1);
        return RxOutcome::Misc;
    }
    let is_5ghz = channel >= 32;
    let hdr = WifiHdr { rssi, channel, freq_mhz: freq_mhz(channel, is_5ghz), is_5ghz, rate, ts_ms };
    match ring.try_push(hdr, payload, sig_len) {
        PushOutcome::Full => {
            drops.ring_overflow = drops.ring_overflow.wrapping_add(1);
            RxOutcome::Dropped
        },
        PushOutcome::Stored { truncated } => {
            if truncated {
                drops.truncated = drops.truncated.wrapping_add(1);
            }
            RxOutcome::Queued { truncated }
        },
    }
}

/// Command bytes waiting for a line end are dropped when the buffer would
/// grow past this many bytes.
pub const LINE_BUFFER_LIMIT: usize = 4096;

pub open spec fn is_line_end(b: u8) -> bool {
    b == 0x0a || b == 0x0d
}

/// Cutting `buf` after each `\n` or `\r`: the scan is at `i`, the current
/// piece starts at `start`, `pieces` are the pieces cut so far. The result is
/// all pieces, each with its line end, and where the unfinished rest begins.
pub open spec fn cut_lines(buf: Seq<u8>, start: int, i: int, pieces: Seq<Seq<u8>>) -> (Seq<Seq<u8>>, int)
    decreases buf.len() - i,
{
    if i < 0 || i >= buf.len() {
        (pieces, start)
    } else if is_line_end(buf[i]) {
        cut_lines(buf, i + 1, i + 1, pieces.push(buf.subrange(start, i + 1)))
    } else {
        cut_lines(buf, start, i + 1, pieces)
    }
}

/// The command lines in the pieces: each decoded (invalid UTF-8 replaced) and
/// trimmed; blank ones are skipped.
pub open spec fn command_texts(pieces: Seq<Seq<u8>>) -> Seq<Seq<char>>
    decreases pieces.len(),
{
    if pieces.len() == 0 {
        Seq::empty()
    } else {
        let prev = command_texts(pieces.drop_last());
        let t = trimmed(utf8_lossy(pieces.last()));
        if t.len() > 0 {
            prev.push(t)
        } else {
            prev
        }
    }
}

/// The buffer after new bytes arrive; it is emptied when it would exceed the limit.
pub open spec fn buffered(acc: Seq<u8>, incoming: Seq<u8>) -> Seq<u8> {
    let b = acc + incoming;
    if b.len() > LINE_BUFFER_LIMIT {
        Seq::empty()
    } else {
        b
    }
}

pub open spec fn strings_view(v: Seq<String>) -> Seq<Seq<char>> {
    v.map_values(|s: String| s@)
}

/// Adds bytes from the host to the command buffer and takes out the complete
/// command lines; the unfinished rest stays in the buffer.
pub fn take_lines(acc: &mut Vec<u8>, incoming: &[u8]) -> (lines: Vec<String>)
    ensures
        ({
            let b = buffered(old(acc)@, incoming@);
            let c = cut_lines(b, 0, 0, Seq::empty());
            &&& final(acc)@ == b.skip(c.1)
            &&& strings_view(lines@) == command_texts(c.0)
        }),
{
    push_bytes(acc, incoming);
    if acc.len() > LINE_BUFFER_LIMIT {
        acc.clear();
    }
    let ghost b = acc@;
    assert(b == buffered(old(acc)@, incoming@));
    let mut lines: Vec<String> = Vec::new();
    let ghost mut pieces: Seq<Seq<u8>> = Seq::empty();
    let mut start: usize = 0;
    let mut i: usize = 0;
    while i < acc.len()
        invariant
            0 <= start <= i <= acc@.len(),
            acc@ == b,
            cut_lines(b, start as int, i as int, pieces) == cut_lines(b, 0, 0, Seq::empty()),
            strings_view(lines@) == command_texts(pieces),
        decreases acc@.len() - i,
    {
        if acc[i] == 0x0a || acc[i] == 0x0d {
            let piece = slice_subrange(acc.as_slice(), start, i + 1);
            let text = decode_lossy(piece);
            let cs = chars_of(text.as_str());
            let t = trim_chars(&cs);
            let ghost prev = pieces;
            proof {
                pieces = pieces.push(b.subrange(start as int, i + 1));
                assert(pieces.drop_last() == prev);
            }
            if t.len() > 0 {
                let ghost old_lines = lines@;
                lines.push(string_of(t.as_slice()));
                assert(strings_view(lines@) =~= strings_view(old_lines).push(t@));
            }
            start = i + 1;
        }
        i += 1;
    }
    let rest = slice_to_vec(slice_subrange(acc.as_slice(), start, acc.len()));
    assert(rest@ == b.skip(start as int));
    *acc = rest;
    lines
}

/// A device seen for the first time is always reported, with one hit and
/// the sighting time as first and last seen.
pub proof fn lemma_first_sighting_reported(ts_ms: u64, rssi: i8, signal_rule: bool)
    ensures
        ({
            let s = sighting(None, ts_ms, rssi, signal_rule);
            &&& s.1
            &&& s.0.hits == 1
            &&& s.0.first == ts_ms
            &&& s.0.last == ts_ms
            &&& s.0.last_emit == ts_ms
        }),
{
}

/// A device already reported (at a non-zero time) is reported again exactly
/// when the cooldown has passed since that report or, under the signal rule,
/// its signal moved by at least 6 dB; every sighting counts as a hit (up to
/// the counter's limit) and keeps the first-seen time.
pub proof fn lemma_repeat_sighting(d: Dedup, ts_ms: u64, rssi: i8, signal_rule: bool)
    requires
        d.last_emit != 0,
    ensures
        ({
            let s = sighting(Some(d), ts_ms, rssi, signal_rule);
            &&& s.1 <==> (ts_ms >= d.last_emit + DEDUP_COOLDOWN_MS || (signal_rule && rssi_gap(d.rssi, rssi) >= 6))
            &&& s.0.first == d.first
            &&& s.0.last == ts_ms
            &&& s.0.hits == (if d.hits == u32::MAX { d.hits } else { (d.hits + 1) as u32 })
        }),
{
}

/// Capture mode reports every frame that passes the filters and never touches
/// the discovery table.
pub proof fn lemma_capture_not_deduplicated(v: ConfigView, m: Map<u64, Dedup>, h: WifiHdr, frame: Seq<u8>, p: BlePkt)
    requires
        v.mode == Mode::Capture,
    ensures
        wifi_decision(v, m, h, frame).0 == m,
        frame_long_enough(frame) && wifi_passes(v.filters, spec_addr2(frame), spec_ssid(frame))
            ==> wifi_decision(v, m, h, frame).1.len() == 1,
        ble_decision(v, m, p).0 == m,
        ble_passes(v.filters, p.addr@, opt_text(p.name), p.company_id) ==> ble_decision(v, m, p).1.len() == 1,
{
}

/// The pieces joined in order.
pub open spec fn joined(pieces: Seq<Seq<u8>>) -> Seq<u8>
    decreases pieces.len(),
{
    if pieces.len() == 0 {
        Seq::empty()
    } else {
        joined(pieces.drop_last()) + pieces.last()
    }
}

proof fn lemma_cut_lines_step(buf: Seq<u8>, start: int, i: int, pieces: Seq<Seq<u8>>)
    requires
        0 <= start <= i <= buf.len(),
        forall|k: int| start <= k < i ==> !is_line_end(#[trigger] buf[k]),
    ensures
        ({
            let c = cut_lines(buf, start, i, pieces);
            &&& 0 <= c.1 <= buf.len()
            &&& joined(c.0) + buf.skip(c.1) == joined(pieces) + buf.skip(start)
            &&& forall|k: int| c.1 <= k < buf.len() ==> !is_line_end(#[trigger] buf[k])
            &&& c.0.len() >= pieces.len()
            &&& c.0.take(pieces.len() as int) == pieces
            &&& forall|j: int| pieces.len() <= j < c.0.len() ==> (#[trigger] c.0[j]).len() > 0 && is_line_end(c.0[j].last())
        }),
    decreases buf.len() - i,
{
    if i >= buf.len() {
        assert(pieces.take(pieces.len() as int) =~= pieces);
    } else if is_line_end(buf[i]) {
        let piece = buf.subrange(start, i + 1);
        let p2 = pieces.push(piece);
        lemma_cut_lines_step(buf, i + 1, i + 1, p2);
        assert(p2.drop_last() == pieces);
        assert(joined(p2) == joined(pieces) + piece);
        assert(piece + buf.skip(i + 1) =~= buf.skip(start));
        assert(joined(p2) + buf.skip(i + 1) =~= joined(pieces) + buf.skip(start));
        assert(piece.last() == buf[i]);
        let c = cut_lines(buf, i + 1, i + 1, p2);
        assert(c.0[pieces.len() as int] == c.0.take(p2.len() as int)[pieces.len() as int]);
        assert(c.0.take(pieces.len() as int) =~= c.0.take(p2.len() as int).take(pieces.len() as int));
    } else {
        lemma_cut_lines_step(buf, start, i + 1, pieces);
    }
}

/// Cutting command bytes into lines loses and reorders nothing: the pieces,
/// in order, followed by the unfinished rest, are exactly the buffer. Every
/// piece ends in its line end, and the rest holds none.
pub proof fn lemma_cut_lines_keeps_bytes(buf: Seq<u8>)
    ensures
        ({
            let c = cut_lines(buf, 0, 0, Seq::empty());
            &&& joined(c.0) + buf.skip(c.1) == buf
            &&& forall|j: int| 0 <= j < c.0.len() ==> (#[trigger] c.0[j]).len() > 0 && is_line_end(c.0[j].last())
            &&& forall|k: int| c.1 <= k < buf.len() ==> !is_line_end(#[trigger] buf[k])
        }),
{
    lemma_cut_lines_step(buf, 0, 0, Seq::empty());
    assert(joined(Seq::<Seq<u8>>::empty()) + buf.skip(0) =~= buf);
}

proof fn lemma_key_bytes(a0: u8, a1: u8, a2: u8, a3: u8, a4: u8, a5: u8, b0: u8, b1: u8, b2: u8, b3: u8, b4: u8, b5: u8)
    by (bit_vector)
    requires
        (a0 as u64) + 0x100 * (a1 as u64) + 0x1_0000 * (a2 as u64) + 0x100_0000 * (a3 as u64) + 0x1_0000_0000 * (a4 as u64)
            + 0x100_0000_0000 * (a5 as u64) == (b0 as u64) + 0x100 * (b1 as u64) + 0x1_0000 * (b2 as u64) + 0x100_0000
            * (b3 as u64) + 0x1_0000_0000 * (b4 as u64) + 0x100_0000_0000 * (b5 as u64),
    ensures
        a0 == b0 && a1 == b1 && a2 == b2 && a3 == b3 && a4 == b4 && a5 == b5,
{
}

/// Discovery keeps one table entry per address: two addresses share a table
/// key only when they are the same address, so a device never seen before is
/// always new to the table.
pub proof fn lemma_mac_key_distinguishes(a: Seq<u8>, b: Seq<u8>)
    requires
        a.len() == 6,
        b.len() == 6,
        mac_key(a) == mac_key(b),
    ensures
        a == b,
{
    let ka = (a[0] as u64) + 0x100 * (a[1] as u64) + 0x1_0000 * (a[2] as u64) + 0x100_0000 * (a[3] as u64) + 0x1_0000_0000
        * (a[4] as u64) + 0x100_0000_0000 * (a[5] as u64);
    let kb = (b[0] as u64) + 0x100 * (b[1] as u64) + 0x1_0000 * (b[2] as u64) + 0x100_0000 * (b[3] as u64) + 0x1_0000_0000
        * (b[4] as u64) + 0x100_0000_0000 * (b[5] as u64);
    assert(ka == mac_key(a));
    assert(kb == mac_key(b));
    lemma_key_bytes(a[0], a[1], a[2], a[3], a[4], a[5], b[0], b[1], b[2], b[3], b[4], b[5]);
    assert(a =~= b);
}

} // verus!
