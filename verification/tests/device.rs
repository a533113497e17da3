use espcap::command::Command;
use espcap::config::{DeviceConfig, DropCounters};
use espcap::device::{
    apply_command, ble_output, drain_wifi, hop_step, observe, radios_enabled, record_rx, take_lines, wifi_output, BlePkt, Dedup,
    Output, RxOutcome,
};
use espcap::error::Error;
use espcap::event::Event;
use espcap::filter::FilterSpec;
use espcap::pcap::{decode_frames, pcap_global_header, DLT_BLUETOOTH_LE_LL_WITH_PHDR, DLT_IEEE802_11_RADIO, TYPE_BLE, TYPE_GLOBAL, TYPE_WIFI};
use espcap::ring::{WifiHdr, WifiRing, WifiSlot, WIFI_RING_SLOTS};
use espcap::types::{Chip, Mode, OutputFormat, Radio, WifiBand};
use espcap::wifi::{beacon_fixture, probe_resp_fixture};
use std::collections::HashMap;

fn set_radio_format(radio: Option<Radio>, format: Option<OutputFormat>, mode: Option<Mode>) -> Command {
    Command::SetConfig {
        radio,
        mode,
        format,
        wifi_band: None,
        dwell_ms: None,
        hopmask: None,
        channels_5ghz: None,
        ble_interval_ms: None,
        ble_window_ms: None,
        ble_active: None,
        wifi_types: None,
        filters: None,
    }
}

fn frame_payloads(outs: &[Output]) -> Vec<(u8, Vec<u8>)> {
    let mut v = Vec::new();
    for o in outs {
        if let Output::Frame(bytes) = o {
            let (frames, n) = decode_frames(bytes);
            assert_eq!(n, bytes.len());
            for f in frames {
                v.push((f.typ, f.payload));
            }
        }
    }
    v
}

#[test]
fn status_get_start_stop_and_unknown() {
    let drops = DropCounters::default();
    let mut cfg = DeviceConfig::default();
    let (outs, persist) = apply_command(&mut cfg, Ok(Command::Status), Chip::Esp32s3, &drops);
    assert!(!persist);
    assert!(matches!(&outs[..], [Output::Status(s)] if s.chip == Chip::Esp32s3 && s.hopmask == "0x0421"));
    let (outs, _) = apply_command(&mut cfg, Ok(Command::Get), Chip::Esp32c5, &drops);
    assert!(matches!(&outs[..], [Output::Status(s)] if s.chip == Chip::Esp32c5));
    let (outs, persist) = apply_command(&mut cfg, Ok(Command::Start), Chip::Esp32s3, &drops);
    assert!(persist && cfg.running);
    assert!(matches!(&outs[..], [Output::Event(Event::Ack)]));
    let (outs, persist) = apply_command(&mut cfg, Ok(Command::Stop), Chip::Esp32s3, &drops);
    assert!(persist && !cfg.running);
    assert!(matches!(&outs[..], [Output::Event(Event::Ack)]));
    let (outs, persist) = apply_command(&mut cfg, Err(Error::UnknownCommand), Chip::Esp32s3, &drops);
    assert!(outs.is_empty() && !persist);
    let (outs, persist) = apply_command(&mut cfg, Err(Error::Json("eof".into())), Chip::Esp32s3, &drops);
    assert!(!persist);
    assert!(matches!(&outs[..], [Output::Event(Event::Error { msg })] if msg == "invalid json: eof"));
}

#[test]
fn start_in_pcap_sends_global_headers() {
    let drops = DropCounters::default();
    let mut cfg = DeviceConfig::default();
    let (outs, persist) =
        apply_command(&mut cfg, Ok(set_radio_format(Some(Radio::Both), Some(OutputFormat::Pcap), None)), Chip::Esp32s3, &drops);
    assert!(persist);
    assert!(matches!(&outs[..], [Output::Event(Event::Ack)]));
    let (outs, _) = apply_command(&mut cfg, Ok(Command::Start), Chip::Esp32s3, &drops);
    assert_eq!(outs.len(), 3);
    assert!(matches!(outs[0], Output::Event(Event::Ack)));
    assert_eq!(
        frame_payloads(&outs),
        vec![
            (TYPE_GLOBAL, pcap_global_header(DLT_IEEE802_11_RADIO).to_vec()),
            (TYPE_GLOBAL, pcap_global_header(DLT_BLUETOOTH_LE_LL_WITH_PHDR).to_vec()),
        ]
    );
    let mut cfg = DeviceConfig::default();
    apply_command(&mut cfg, Ok(set_radio_format(Some(Radio::Ble), Some(OutputFormat::Pcap), None)), Chip::Esp32s3, &drops);
    let (outs, _) = apply_command(&mut cfg, Ok(Command::Start), Chip::Esp32s3, &drops);
    assert_eq!(frame_payloads(&outs), vec![(TYPE_GLOBAL, pcap_global_header(DLT_BLUETOOTH_LE_LL_WITH_PHDR).to_vec())]);
}

#[test]
fn refused_set_answers_error_and_is_not_saved() {
    let drops = DropCounters::default();
    let mut cfg = DeviceConfig::default();
    let cmd = Command::SetConfig {
        radio: None,
        mode: None,
        format: None,
        wifi_band: Some(WifiBand::FiveG),
        dwell_ms: None,
        hopmask: None,
        channels_5ghz: None,
        ble_interval_ms: None,
        ble_window_ms: None,
        ble_active: None,
        wifi_types: None,
        filters: None,
    };
    let (outs, persist) = apply_command(&mut cfg, Ok(cmd), Chip::Esp32s3, &drops);
    assert!(!persist);
    assert!(matches!(&outs[..], [Output::Event(Event::Error { msg })] if msg == "ESP32-S3 supports 2.4 GHz WiFi only"));
    assert_eq!(cfg.wifi_band, WifiBand::FiveG);
    let cmd = Command::SetConfig {
        radio: None,
        mode: None,
        format: None,
        wifi_band: None,
        dwell_ms: Some(5),
        hopmask: None,
        channels_5ghz: None,
        ble_interval_ms: None,
        ble_window_ms: None,
        ble_active: None,
        wifi_types: None,
        filters: None,
    };
    let (outs, persist) = apply_command(&mut cfg, Ok(cmd), Chip::Esp32c5, &drops);
    assert!(!persist);
    assert!(matches!(&outs[..], [Output::Event(Event::Error { msg })] if msg == "dwell_ms must be 100-2000"));
}

fn slot_of(frame: &[u8], ts_ms: u64, rssi: i8) -> WifiSlot {
    let mut ring = WifiRing::new();
    ring.try_push(WifiHdr { rssi, channel: 6, freq_mhz: 2437, is_5ghz: false, rate: 2, ts_ms }, frame, frame.len());
    ring.try_pop().unwrap()
}

fn discovery_cfg() -> DeviceConfig {
    let mut cfg = DeviceConfig::default();
    cfg.radio = Radio::Wifi;
    cfg.running = true;
    cfg
}

#[test]
fn wifi_discovery_dedups_with_cooldown_and_rssi_jump() {
    let cfg = discovery_cfg();
    let mut table: HashMap<u64, Dedup> = HashMap::new();
    let bssid = [0x11, 0x22, 0x33, 0x44, 0x55, 0x66];
    let beacon = beacon_fixture(bssid, "Flock");
    let outs = wifi_output(&cfg, &mut table, &slot_of(&beacon, 1000, -40));
    match &outs[..] {
        [Output::Event(Event::WifiAp { mac, ssid, hit_count, first_ts_ms, last_ts_ms, .. })] => {
            assert_eq!(mac, "11:22:33:44:55:66");
            assert_eq!(ssid, "Flock");
            assert_eq!((*hit_count, *first_ts_ms, *last_ts_ms), (1, 1000, 1000));
        },
        other => panic!("unexpected {other:?}"),
    }
    assert!(wifi_output(&cfg, &mut table, &slot_of(&beacon, 2000, -42)).is_empty());
    let outs = wifi_output(&cfg, &mut table, &slot_of(&beacon, 3000, -50));
    assert!(matches!(&outs[..], [Output::Event(Event::WifiAp { hit_count: 3, last_ts_ms: 3000, .. })]));
    assert!(wifi_output(&cfg, &mut table, &slot_of(&beacon, 4000, -50)).is_empty());
    let outs = wifi_output(&cfg, &mut table, &slot_of(&beacon, 8000, -50));
    assert!(matches!(&outs[..], [Output::Event(Event::WifiAp { hit_count: 5, first_ts_ms: 1000, .. })]));
    assert_eq!(table.len(), 1);
}

#[test]
fn wifi_discovery_reports_every_revealed_device() {
    let cfg = discovery_cfg();
    let mut table: HashMap<u64, Dedup> = HashMap::new();
    let bssid = [0x11, 0x22, 0x33, 0x44, 0x55, 0x66];
    let sta = [0x3c, 0x71, 0xbf, 0xd2, 0x2a, 0x70];
    let mut pv = probe_resp_fixture(bssid, "x");
    pv[4..10].copy_from_slice(&sta);
    let outs = wifi_output(&cfg, &mut table, &slot_of(&pv, 5, -40));
    assert_eq!(outs.len(), 2);
    assert!(matches!(&outs[0], Output::Event(Event::WifiAp { .. })));
    match &outs[1] {
        Output::Event(Event::WifiSta { mac, ssid, .. }) => {
            assert_eq!(mac, "3c:71:bf:d2:2a:70");
            assert_eq!(ssid.as_deref(), Some("x"));
        },
        other => panic!("unexpected {other:?}"),
    }
    assert_eq!(table.len(), 2);
}

#[test]
fn wifi_capture_and_filters() {
    let mut cfg = discovery_cfg();
    cfg.mode = Mode::Capture;
    let mut table: HashMap<u64, Dedup> = HashMap::new();
    let beacon = beacon_fixture([1; 6], "n");
    let outs = wifi_output(&cfg, &mut table, &slot_of(&beacon, 7, -30));
    assert!(matches!(&outs[..], [Output::Event(Event::WifiFrame { .. })]));
    let outs = wifi_output(&cfg, &mut table, &slot_of(&beacon, 8, -30));
    assert_eq!(outs.len(), 1);
    assert!(table.is_empty());
    cfg.format = OutputFormat::Pcap;
    let outs = wifi_output(&cfg, &mut table, &slot_of(&beacon, 2500, -30));
    let frames = frame_payloads(&outs);
    assert_eq!(frames.len(), 1);
    assert_eq!(frames[0].0, TYPE_WIFI);
    assert_eq!(frames[0].1.len(), 16 + 23 + beacon.len());
    cfg.filters = espcap::filter::FilterEngine::from_spec(&FilterSpec { ssid_regex: Some("^zzz".into()), ..Default::default() })
        .unwrap();
    assert!(wifi_output(&cfg, &mut table, &slot_of(&beacon, 9, -30)).is_empty());
    assert!(wifi_output(&cfg, &mut table, &slot_of(&[0u8; 10], 9, -30)).is_empty());
}

fn ble_pkt(ts_ms: u64) -> BlePkt {
    BlePkt {
        addr: [0xaa, 0xbb, 0xcc, 0xdd, 0xee, 0xff],
        addr_random: true,
        rssi: -60,
        ts_ms,
        name: Some("AirPods".into()),
        company_id: Some(0x4c),
        adv: vec![0x02, 0x01, 0x06],
    }
}

#[test]
fn ble_discovery_cooldown_without_rssi_exception() {
    let cfg = DeviceConfig::default();
    let mut table: HashMap<u64, Dedup> = HashMap::new();
    let outs = ble_output(&cfg, &mut table, &ble_pkt(100));
    assert!(matches!(&outs[..], [Output::Event(Event::Ble { hit_count: 1, channel: 39, .. })]));
    let mut loud = ble_pkt(200);
    loud.rssi = -20;
    assert!(ble_output(&cfg, &mut table, &loud).is_empty());
    let outs = ble_output(&cfg, &mut table, &ble_pkt(5100));
    assert!(matches!(&outs[..], [Output::Event(Event::Ble { hit_count: 3, first_ts_ms: 100, last_ts_ms: 5100, .. })]));
}

#[test]
fn ble_capture_outputs() {
    let mut cfg = DeviceConfig::default();
    cfg.mode = Mode::Capture;
    let mut table: HashMap<u64, Dedup> = HashMap::new();
    let outs = ble_output(&cfg, &mut table, &ble_pkt(1));
    assert!(matches!(&outs[..], [Output::Event(Event::BleAdv { .. })]));
    cfg.format = OutputFormat::Pcap;
    let outs = ble_output(&cfg, &mut table, &ble_pkt(1));
    let frames = frame_payloads(&outs);
    assert_eq!(frames[0].0, TYPE_BLE);
    assert_eq!(frames[0].1.len(), 16 + 10 + 2 + 6 + 3);
    assert!(table.is_empty());
}

#[test]
fn observe_first_and_repeat() {
    let mut table: HashMap<u64, Dedup> = HashMap::new();
    let d = observe(&mut table, 7, 50, -40, true).unwrap();
    assert_eq!((d.hits, d.first, d.last, d.last_emit), (1, 50, 50, 50));
    assert!(observe(&mut table, 7, 60, -41, true).is_none());
    assert!(observe(&mut table, 7, 70, -47, true).is_some());
    assert_eq!(table[&7].hits, 3);
}

#[test]
fn radios_follow_running_and_selection() {
    let mut cfg = DeviceConfig::default();
    assert_eq!(radios_enabled(&cfg), (false, false));
    cfg.running = true;
    cfg.radio = Radio::Both;
    assert_eq!(radios_enabled(&cfg), (true, true));
    cfg.radio = Radio::Ble;
    assert_eq!(radios_enabled(&cfg), (false, true));
}

#[test]
fn hop_steps_cycle_through_the_sequence() {
    let mut cfg = discovery_cfg();
    let s = hop_step(&cfg, 0);
    assert_eq!((s.channel, s.next_index, s.delay_ms), (Some(1), 1, 300));
    let s = hop_step(&cfg, 2);
    assert_eq!((s.channel, s.next_index), (Some(11), 3));
    let s = hop_step(&cfg, 3);
    assert_eq!((s.channel, s.next_index), (Some(1), 1));
    cfg.dwell_ms = 150;
    assert_eq!(hop_step(&cfg, 0).delay_ms, 150);
    cfg.dwell_ms = 100;
    assert_eq!(hop_step(&cfg, 1).delay_ms, 100);
    cfg.running = false;
    let s = hop_step(&cfg, 5);
    assert_eq!((s.channel, s.next_index), (None, 5));
}

#[test]
fn receive_path_counts_drops() {
    let mut ring = WifiRing::new();
    let mut drops = DropCounters::default();
    assert_eq!(record_rx(&mut ring, &mut drops, false, false, -40, 6, 2, 1, &[1, 2], 2), RxOutcome::Ignored);
    assert_eq!(record_rx(&mut ring, &mut drops, true, true, -40, 6, 2, 1, &[1, 2], 2), RxOutcome::Misc);
    assert_eq!(drops.truncated, 1);
    assert_eq!(record_rx(&mut ring, &mut drops, true, false, -40, 36, 2, 1, &[1, 2], 4), RxOutcome::Queued { truncated: true });
    assert_eq!(drops.truncated, 2);
    let slot = ring.try_pop().unwrap();
    assert!(slot.hdr.is_5ghz);
    assert_eq!(slot.hdr.freq_mhz, 5180);
    for _ in 0..WIFI_RING_SLOTS {
        record_rx(&mut ring, &mut drops, true, false, -40, 6, 2, 1, &[1], 1);
    }
    assert_eq!(record_rx(&mut ring, &mut drops, true, false, -40, 6, 2, 1, &[1], 1), RxOutcome::Dropped);
    assert_eq!(drops.ring_overflow, 1);
}

#[test]
fn command_lines_are_cut_at_line_ends() {
    let mut acc = Vec::new();
    let lines = take_lines(&mut acc, b"{\"cmd\":\"get\"}\r\n  \n{\"cmd\"");
    assert_eq!(lines, vec!["{\"cmd\":\"get\"}".to_string()]);
    assert_eq!(acc, b"{\"cmd\"".to_vec());
    let lines = take_lines(&mut acc, b":\"stop\"}\n");
    assert_eq!(lines, vec!["{\"cmd\":\"stop\"}".to_string()]);
    assert!(acc.is_empty());
    let big = vec![b'x'; 5000];
    assert!(take_lines(&mut acc, &big).is_empty());
    assert!(acc.is_empty());
}

#[test]
fn wifi_queue_is_drained_in_order_or_emptied() {
    let mut cfg = discovery_cfg();
    let mut ring = WifiRing::new();
    let mut drops = DropCounters::default();
    let a = beacon_fixture([1; 6], "a");
    let b = beacon_fixture([2; 6], "b");
    record_rx(&mut ring, &mut drops, true, false, -40, 6, 2, 10, &a, a.len());
    record_rx(&mut ring, &mut drops, true, false, -40, 6, 2, 11, &b, b.len());
    let mut table: HashMap<u64, Dedup> = HashMap::new();
    let outs = drain_wifi(&cfg, &mut ring, &mut table);
    assert_eq!(outs.len(), 2);
    assert!(matches!(&outs[0], Output::Event(Event::WifiAp { ssid, .. }) if ssid == "a"));
    assert!(matches!(&outs[1], Output::Event(Event::WifiAp { ssid, .. }) if ssid == "b"));
    assert_eq!(ring.len(), 0);
    record_rx(&mut ring, &mut drops, true, false, -40, 6, 2, 12, &a, a.len());
    cfg.running = false;
    assert!(drain_wifi(&cfg, &mut ring, &mut table).is_empty());
    assert_eq!(ring.len(), 0);
}
