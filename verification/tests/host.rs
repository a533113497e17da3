use espcap::command::Command;
use espcap::error::Error as ProtoError;
use espcap::event::{ack, Event, StatusDoc};
use espcap::host::cli::{set_command, FormatArg, ModeArg, RadioArg, WifiBandArg, WifiTypeArg};
use espcap::host::io_util::{chip_from_status, extract_json, reject_illegal_band, route_frames};
use espcap::host::oui::{load_oui_csv, merge_filters, ouis_for_manufacturer, OuiEntry};
use espcap::host::session::{Awaited, ReplyWait, WaitStep};
use espcap::host::setup::prepare_set;
use espcap::host::Error;
use espcap::pcap::{ble_pcap_payload, encode_frame, pcap_global_header, wifi_pcap_payload, DLT_IEEE802_11_RADIO, TYPE_BLE, TYPE_GLOBAL, TYPE_WIFI};
use espcap::types::{Chip, Mode, OutputFormat, Radio, WifiBand, WifiType};
use espcap::wifi::beacon_fixture;

fn status(chip: Option<&str>) -> Event {
    let body = match chip {
        Some(c) => format!("{{\"event\":\"status\",\"chip\":\"{c}\"}}"),
        None => "{\"event\":\"status\"}".to_string(),
    };
    Event::Status(StatusDoc { chip: chip.map(|c| c.to_string()), body })
}

#[test]
fn s3_rejects_5g_c5_allows() {
    let st = status(Some("esp32s3"));
    assert_eq!(chip_from_status(&st).unwrap(), Chip::Esp32s3);
    assert!(reject_illegal_band(Chip::Esp32s3, Some(WifiBand::FiveG), &[]).is_err());
    assert!(reject_illegal_band(Chip::Esp32s3, Some(WifiBand::Both), &[]).is_err());
    assert!(reject_illegal_band(Chip::Esp32s3, Some(WifiBand::TwoG), &[36]).is_err());
    assert!(reject_illegal_band(Chip::Esp32s3, Some(WifiBand::TwoG), &[]).is_ok());
    let st = status(Some("esp32c5"));
    assert_eq!(chip_from_status(&st).unwrap(), Chip::Esp32c5);
    assert!(reject_illegal_band(Chip::Esp32c5, Some(WifiBand::Both), &[36]).is_ok());
    assert!(chip_from_status(&ack()).is_err());
    let st = status(Some("esp32"));
    assert!(chip_from_status(&st).is_err());
    let st = status(None);
    assert!(chip_from_status(&st).is_err());
}

#[test]
fn chip_errors_say_what_is_wrong() {
    assert_eq!(chip_from_status(&ack()), Err(Error::Msg("expected status event".into())));
    assert_eq!(chip_from_status(&status(None)), Err(Error::Msg("status missing chip".into())));
    assert_eq!(chip_from_status(&status(Some("esp32"))), Err(Error::Msg("unknown chip esp32".into())));
    assert_eq!(
        reject_illegal_band(Chip::Esp32s3, Some(WifiBand::FiveG), &[36]).unwrap_err().message(),
        "ESP32-S3 does not support 5 GHz; omit --wifi-band 5/both"
    );
    assert_eq!(reject_illegal_band(Chip::Esp32s3, None, &[36]).unwrap_err().message(), "ESP32-S3 rejects --channels-5ghz");
}

#[test]
fn error_msg() {
    assert!(matches!(Error::msg("x"), Error::Msg(_)));
    let _ = Error::Serial("p".into());
}

#[test]
fn host_error_messages() {
    assert_eq!(Error::msg("x").message(), "x");
    assert_eq!(Error::Io("gone".into()).message(), "io: gone");
    assert_eq!(Error::Serial("p".into()).message(), "serial: p");
    assert_eq!(Error::Json("j".into()).message(), "json: j");
    assert_eq!(Error::Regex("r".into()).message(), "invalid regex: r");
    assert_eq!(Error::from(ProtoError::UnknownCommand).message(), "unknown command");
}

#[test]
fn json_is_found_after_boot_noise() {
    assert_eq!(extract_json("I (1) boot size{\"event\":\"ack\"}\r\n").as_deref(), Some("{\"event\":\"ack\"}"));
    assert_eq!(extract_json("  {\"a\":1}  ").as_deref(), Some("{\"a\":1}"));
    assert_eq!(extract_json("nojson"), None);
    assert_eq!(extract_json("   \n"), None);
}

#[test]
fn frames_are_routed_by_type() {
    let mpdu = beacon_fixture([1; 6], "n");
    let wifi_rec = wifi_pcap_payload(0, 2412, false, -30, 2, &mpdu);
    let ble_rec = ble_pcap_payload(0, -50, 39, &[2; 6], true, &[0x01]);
    let mut framed = encode_frame(TYPE_GLOBAL, &pcap_global_header(DLT_IEEE802_11_RADIO));
    framed.extend_from_slice(&encode_frame(TYPE_WIFI, &wifi_rec));
    framed.extend_from_slice(&encode_frame(TYPE_BLE, &ble_rec));
    framed.extend_from_slice(&encode_frame(99, &[0]));
    let (wifi, ble, n) = route_frames(&framed);
    assert_eq!(n, framed.len());
    assert_eq!(wifi, wifi_rec);
    assert_eq!(ble, ble_rec);
    let mut partial = framed.clone();
    partial.extend_from_slice(&[0xa5, 0x5a, TYPE_WIFI, 0, 9, 1]);
    let (_, _, n) = route_frames(&partial);
    assert_eq!(n, framed.len());
}

#[test]
fn waits_end_on_reply_error_or_too_many_events() {
    let mut w = ReplyWait::new(Awaited::Ack);
    assert!(matches!(w.step(status(Some("esp32s3"))), WaitStep::Pending));
    assert!(matches!(w.step(ack()), WaitStep::Done(Event::Ack)));
    let mut w = ReplyWait::new(Awaited::Status);
    assert!(matches!(w.step(Event::Error { msg: "no".into() }), WaitStep::Failed(Error::Msg(m)) if m == "no"));
    let mut w = ReplyWait::new(Awaited::Status);
    for _ in 0..63 {
        assert!(matches!(w.step(ack()), WaitStep::Pending));
    }
    assert!(matches!(w.step(ack()), WaitStep::Failed(Error::Msg(m)) if m == "expected status"));
}

#[test]
fn set_command_carries_options() {
    let cmd = set_command(
        Some(RadioArg::Wifi),
        Some(ModeArg::Capture),
        Some(FormatArg::Pcap),
        Some(WifiBandArg::FiveG),
        Some(300),
        Some(1),
        Some(vec![36]),
        Some(100),
        Some(30),
        Some(false),
        Some(vec![WifiTypeArg::Ctrl]),
        None,
    );
    assert_eq!(
        cmd,
        Command::SetConfig {
            radio: Some(Radio::Wifi),
            mode: Some(Mode::Capture),
            format: Some(OutputFormat::Pcap),
            wifi_band: Some(WifiBand::FiveG),
            dwell_ms: Some(300),
            hopmask: Some(1),
            channels_5ghz: Some(vec![36]),
            ble_interval_ms: Some(100),
            ble_window_ms: Some(30),
            ble_active: Some(false),
            wifi_types: Some(vec![WifiType::Ctrl]),
            filters: None,
        }
    );
    assert_eq!(Radio::from(RadioArg::Off), Radio::Off);
    assert_eq!(WifiBand::from(WifiBandArg::TwoG), WifiBand::TwoG);
    assert_eq!(WifiType::from(WifiTypeArg::Data), WifiType::Data);
}

fn db() -> Vec<OuiEntry> {
    load_oui_csv("oui,name\nF4:4E:FC,Apple, Inc.\n24:0A:C4,Espressif Inc.\n\n30AEA4 , Espressif Inc.\n24-0a-c4,Espressif Inc.\n")
        .unwrap()
}

#[test]
fn csv_loads_rows_and_rejects_bad_ones() {
    let d = db();
    assert_eq!(d.len(), 4);
    assert_eq!(d[0].oui, [0xf4, 0x4e, 0xfc]);
    assert_eq!(d[0].name, "Apple, Inc.");
    assert_eq!(d[2].oui, [0x30, 0xae, 0xa4]);
    assert_eq!(d[2].name, "Espressif Inc.");
    assert!(load_oui_csv("").unwrap().is_empty());
    assert_eq!(load_oui_csv("oui,name\nbadline\n").unwrap_err(), Error::Msg("bad oui csv line: badline".into()));
    assert_eq!(load_oui_csv("zz,Name").unwrap_err(), Error::Proto(ProtoError::Mac("zz".into())));
    assert_eq!(load_oui_csv("x\noui,name").unwrap_err(), Error::Msg("bad oui csv line: x".into()));
}

#[test]
fn manufacturer_lookup_sorts_and_dedups() {
    let d = db();
    assert_eq!(ouis_for_manufacturer(&d, "Apple").unwrap(), vec![[0xf4, 0x4e, 0xfc]]);
    assert_eq!(ouis_for_manufacturer(&d, "Espressif").unwrap(), vec![[0x24, 0x0a, 0xc4], [0x30, 0xae, 0xa4]]);
    assert_eq!(
        ouis_for_manufacturer(&d, "NoSuchVendor").unwrap_err(),
        Error::Msg("no OUI matched manufacturer regex NoSuchVendor".into())
    );
    assert!(matches!(ouis_for_manufacturer(&d, "("), Err(Error::Regex(_))));
}

#[test]
fn merged_filters_sort_and_add_manufacturer_prefixes() {
    let d = db();
    assert!(merge_filters(None, None, None, None, None, None, &d).unwrap().is_none());
    let spec = merge_filters(
        Some(vec!["aabbcc".into(), "AABBCC".into(), "aabbcc".into()]),
        Some(vec!["aa:bb:cc:dd:ee:ff".into()]),
        Some("n.*".into()),
        Some("s.*".into()),
        Some(vec![76]),
        Some("Espressif"),
        &d,
    )
    .unwrap()
    .unwrap();
    assert_eq!(spec.oui, vec!["240AC4".to_string(), "30AEA4".to_string(), "AABBCC".to_string(), "aabbcc".to_string()]);
    assert_eq!(spec.mac, vec!["aa:bb:cc:dd:ee:ff".to_string()]);
    assert_eq!(spec.name_regex.as_deref(), Some("n.*"));
    assert_eq!(spec.company_id, vec![76]);
    assert!(merge_filters(None, None, None, None, None, Some("NoSuchVendor"), &d).is_err());
    let only_ids = merge_filters(None, None, None, None, Some(vec![1]), None, &d).unwrap().unwrap();
    assert!(only_ids.oui.is_empty());
}

#[test]
fn set_is_prepared_after_chip_and_band_checks() {
    let d = db();
    let cmd = prepare_set(
        &status(Some("esp32s3")),
        Some(RadioArg::Both),
        None,
        None,
        Some(WifiBandArg::TwoG),
        None,
        Some("0x0421".into()),
        None,
        None,
        None,
        None,
        None,
        None,
        None,
        None,
        None,
        Some("Apple"),
        None,
        &d,
    )
    .unwrap();
    match cmd {
        Command::SetConfig { radio, hopmask, filters, wifi_band, .. } => {
            assert_eq!(radio, Some(Radio::Both));
            assert_eq!(hopmask, Some(0x0421));
            assert_eq!(wifi_band, Some(WifiBand::TwoG));
            assert_eq!(filters.unwrap().oui, vec!["F44EFC".to_string()]);
        },
        other => panic!("unexpected {other:?}"),
    }
    let err = prepare_set(
        &status(Some("esp32s3")),
        None, None, None, Some(WifiBandArg::Both), None, None, None, None, None, None, None, None, None, None, None,
        None, None, &d,
    )
    .unwrap_err();
    assert_eq!(err, Error::Msg("ESP32-S3 does not support 5 GHz; omit --wifi-band 5/both".into()));
    let err = prepare_set(
        &ack(), None, None, None, None, None, None, None, None, None, None, None, None, None, None, None, None, None, &d,
    )
    .unwrap_err();
    assert_eq!(err, Error::Msg("expected status event".into()));
    let err = prepare_set(
        &status(Some("esp32c5")),
        None, None, None, None, None, Some("zz".into()), None, None, None, None, None, None, None, None, None, None,
        None, &d,
    )
    .unwrap_err();
    assert_eq!(err, Error::Proto(ProtoError::Hopmask("zz".into())));
    let err = prepare_set(
        &status(Some("esp32c5")),
        None, None, None, None, None, None, None, None, None, None, None, None, None, None, None, Some("Nobody"),
        None, &d,
    )
    .unwrap_err();
    assert_eq!(err, Error::Msg("no OUI matched manufacturer regex Nobody".into()));
}

#[test]
fn manufacturer_regex_error_carries_the_regex_crate_text() {
    let expected = regex::Regex::new("(").unwrap_err().to_string();
    assert_eq!(ouis_for_manufacturer(&db(), "("), Err(Error::Regex(expected.clone())));
    assert_eq!(
        merge_filters(None, None, None, None, None, Some("("), &db()),
        Err(Error::Regex(expected))
    );
}
