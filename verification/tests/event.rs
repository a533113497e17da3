use espcap::command::known_command;
use espcap::event::{ack, ble_adv, ble_disc, error_event, event_name, wifi_ap, wifi_frame, wifi_sta, Event, EventName};

const MAC: [u8; 6] = [0xf4, 0x4e, 0xfc, 0, 1, 2];

#[test]
fn discovery_events_carry_formatted_addresses() {
    match wifi_ap(&MAC, -40, 6, 2437, 10, "Flock", 2, 1, 10) {
        Event::WifiAp { mac, oui, rssi, channel, freq_mhz, ts_ms, ssid, hit_count, first_ts_ms, last_ts_ms } => {
            assert_eq!(mac, "f4:4e:fc:00:01:02");
            assert_eq!(oui, "f4:4e:fc");
            assert_eq!((rssi, channel, freq_mhz, ts_ms), (-40, 6, 2437, 10));
            assert_eq!(ssid, "Flock");
            assert_eq!((hit_count, first_ts_ms, last_ts_ms), (2, 1, 10));
        },
        other => panic!("unexpected {other:?}"),
    }
    match wifi_sta(&MAC, -50, 1, 2412, 11, None, 1, 11, 11) {
        Event::WifiSta { ssid, mac, .. } => {
            assert!(ssid.is_none());
            assert_eq!(mac, "f4:4e:fc:00:01:02");
        },
        other => panic!("unexpected {other:?}"),
    }
    match wifi_sta(&MAC, -50, 1, 2412, 11, Some("x"), 1, 11, 11) {
        Event::WifiSta { ssid, .. } => assert_eq!(ssid.as_deref(), Some("x")),
        other => panic!("unexpected {other:?}"),
    }
}

#[test]
fn ble_events_use_channel_39() {
    match ble_disc(&MAC, -60, 12, Some("AirPods"), Some(0x4c), 3, 1, 12, true) {
        Event::Ble { channel, freq_mhz, name, company_id, addr_type, hit_count, .. } => {
            assert_eq!((channel, freq_mhz), (39, 2480));
            assert_eq!(name.as_deref(), Some("AirPods"));
            assert_eq!(company_id, Some(0x4c));
            assert_eq!(addr_type, "random");
            assert_eq!(hit_count, 3);
        },
        other => panic!("unexpected {other:?}"),
    }
    match ble_disc(&MAC, -60, 12, None, None, 1, 12, 12, false) {
        Event::Ble { addr_type, name, .. } => {
            assert_eq!(addr_type, "public");
            assert!(name.is_none());
        },
        other => panic!("unexpected {other:?}"),
    }
    match ble_adv(&MAC, -70, 14, &[0xaa, 0x01], Some("n")) {
        Event::BleAdv { payload_hex, channel, freq_mhz, name, .. } => {
            assert_eq!(payload_hex, "aa01");
            assert_eq!((channel, freq_mhz), (39, 2480));
            assert_eq!(name.as_deref(), Some("n"));
        },
        other => panic!("unexpected {other:?}"),
    }
}

#[test]
fn capture_and_plain_events() {
    match wifi_frame(&MAC, -30, 36, 5180, 13, &[0x80, 0x00]) {
        Event::WifiFrame { payload_hex, freq_mhz, .. } => {
            assert_eq!(payload_hex, "8000");
            assert_eq!(freq_mhz, 5180);
        },
        other => panic!("unexpected {other:?}"),
    }
    assert_eq!(ack(), Event::Ack);
    assert_eq!(error_event("nope"), Event::Error { msg: "nope".to_string() });
}

#[test]
fn event_and_command_names() {
    for n in ["ack", "error", "wifi_ap", "wifi_sta", "ble", "wifi_frame", "ble_adv"] {
        assert_eq!(event_name(n), EventName::Typed);
    }
    assert_eq!(event_name("status"), EventName::Status);
    assert_eq!(event_name("nope"), EventName::Unknown);
    for n in ["get", "start", "stop", "status", "set"] {
        assert!(known_command(n));
    }
    assert!(!known_command("nope"));
    assert!(!known_command("Set"));
}
