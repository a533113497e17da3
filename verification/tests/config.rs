use espcap::command::Command;
use espcap::config::{DeviceConfig, DropCounters};
use espcap::error::Error;
use espcap::filter::FilterSpec;
use espcap::types::{Chip, Mode, OutputFormat, Radio, WifiBand, WifiType, DEFAULT_HOPMASK};

fn set() -> Command {
    Command::SetConfig {
        radio: None,
        mode: None,
        format: None,
        wifi_band: None,
        dwell_ms: None,
        hopmask: None,
        channels_5ghz: None,
        ble_interval_ms: None,
        ble_window_ms: None,
        ble_active: None,
        wifi_types: None,
        filters: None,
    }
}

fn apply_cmd(cfg: &mut DeviceConfig, cmd: Command) -> Result<(), Error> {
    match cmd {
        Command::SetConfig {
            radio,
            mode,
            format,
            wifi_band,
            dwell_ms,
            hopmask,
            channels_5ghz,
            ble_interval_ms,
            ble_window_ms,
            ble_active,
            wifi_types,
            filters,
        } => cfg.apply_set(
            radio,
            mode,
            format,
            wifi_band,
            dwell_ms,
            hopmask,
            channels_5ghz,
            ble_interval_ms,
            ble_window_ms,
            ble_active,
            wifi_types,
            filters,
        ),
        Command::Get | Command::Start | Command::Stop | Command::Status => Err(Error::UnknownCommand),
    }
}

fn with(f: impl FnOnce(&mut Command)) -> Command {
    let mut c = set();
    f(&mut c);
    c
}

#[test]
fn omitted_fields_keep_defaults() {
    let mut cfg = DeviceConfig::default();
    apply_cmd(&mut cfg, with(|c| if let Command::SetConfig { radio, .. } = c { *radio = Some(Radio::Wifi) }))
        .unwrap();
    assert_eq!(cfg.radio, Radio::Wifi);
    assert_eq!(cfg.dwell_ms, 300);
    assert_eq!(cfg.hopmask, DEFAULT_HOPMASK);
    assert_eq!(cfg.format, OutputFormat::Json);
    assert!(!cfg.ble_active);
    assert_eq!(cfg.promiscuous_filter_mask(), 0x0005);
}

#[test]
fn dwell_and_types_and_5ghz_validation() {
    let mut cfg = DeviceConfig::default();
    assert!(apply_cmd(&mut cfg, with(|c| if let Command::SetConfig { dwell_ms, .. } = c { *dwell_ms = Some(99) }))
        .is_err());
    assert!(apply_cmd(&mut cfg, with(|c| if let Command::SetConfig { dwell_ms, .. } = c { *dwell_ms = Some(2001) }))
        .is_err());
    apply_cmd(&mut cfg, with(|c| if let Command::SetConfig { dwell_ms, .. } = c { *dwell_ms = Some(250) })).unwrap();
    assert_eq!(cfg.dwell_ms, 250);
    assert!(apply_cmd(&mut cfg, with(|c| if let Command::SetConfig { wifi_types, .. } = c { *wifi_types = Some(vec![]) }))
        .is_err());
    apply_cmd(&mut cfg, with(|c| if let Command::SetConfig { wifi_types, .. } = c {
        *wifi_types = Some(vec![WifiType::Ctrl])
    }))
    .unwrap();
    assert_eq!(cfg.promiscuous_filter_mask(), 0x0002);
    apply_cmd(&mut cfg, with(|c| if let Command::SetConfig { wifi_types, .. } = c {
        *wifi_types = Some(vec![WifiType::Mgmt, WifiType::Ctrl, WifiType::Data])
    }))
    .unwrap();
    assert_eq!(cfg.promiscuous_filter_mask(), 0x0007);
    assert!(apply_cmd(&mut cfg, with(|c| if let Command::SetConfig { channels_5ghz, .. } = c {
        *channels_5ghz = Some(vec![1])
    }))
    .is_err());
    apply_cmd(&mut cfg, with(|c| if let Command::SetConfig { channels_5ghz, .. } = c {
        *channels_5ghz = Some(vec![36, 165])
    }))
    .unwrap();
    apply_cmd(&mut cfg, with(|c| if let Command::SetConfig { mode, format, wifi_band, ble_interval_ms, ble_window_ms, ble_active, .. } = c {
        *mode = Some(Mode::Capture);
        *format = Some(OutputFormat::Pcap);
        *wifi_band = Some(WifiBand::Both);
        *ble_interval_ms = Some(80);
        *ble_window_ms = Some(80);
        *ble_active = Some(true);
    }))
    .unwrap();
    assert_eq!(cfg.mode, Mode::Capture);
    assert!(cfg.ble_active);
    apply_cmd(&mut cfg, with(|c| if let Command::SetConfig { hopmask, .. } = c { *hopmask = Some(0x0002) })).unwrap();
    assert_eq!(cfg.hopmask, 0x0002);
    assert!(apply_cmd(&mut cfg, with(|c| if let Command::SetConfig { hopmask, .. } = c { *hopmask = Some(0x8000) }))
        .is_err());
    apply_cmd(&mut cfg, with(|c| if let Command::SetConfig { filters, .. } = c {
        *filters = Some(FilterSpec {
            oui: vec!["F4:4E:FC".into()],
            ssid_regex: Some("^Flock".into()),
            ..Default::default()
        })
    }))
    .unwrap();
    assert!(!cfg.filters.is_open());
    assert!(apply_cmd(&mut DeviceConfig::default(), Command::Get).is_err());
    assert!(apply_cmd(&mut DeviceConfig::default(), Command::Start).is_err());
    assert!(apply_cmd(&mut DeviceConfig::default(), Command::Stop).is_err());
    assert!(apply_cmd(&mut DeviceConfig::default(), Command::Status).is_err());
    assert!(apply_cmd(&mut DeviceConfig::default(), with(|c| if let Command::SetConfig { filters, .. } = c {
        *filters = Some(FilterSpec { name_regex: Some("(".into()), ..Default::default() })
    }))
    .is_err());
}

#[test]
fn s3_rejects_5ghz_c5_accepts() {
    let mut cfg = DeviceConfig::default();
    apply_cmd(&mut cfg, with(|c| if let Command::SetConfig { wifi_band, .. } = c { *wifi_band = Some(WifiBand::FiveG) }))
        .unwrap();
    assert!(cfg.validate_for_chip(Chip::Esp32s3).is_err());
    assert!(cfg.validate_for_chip(Chip::Esp32c5).is_ok());
    let mut cfg = DeviceConfig::default();
    apply_cmd(&mut cfg, with(|c| if let Command::SetConfig { wifi_band, .. } = c { *wifi_band = Some(WifiBand::Both) }))
        .unwrap();
    assert!(cfg.validate_for_chip(Chip::Esp32s3).is_err());
    let mut cfg = DeviceConfig::default();
    apply_cmd(&mut cfg, with(|c| if let Command::SetConfig { channels_5ghz, .. } = c {
        *channels_5ghz = Some(vec![36])
    }))
    .unwrap();
    assert!(cfg.validate_for_chip(Chip::Esp32s3).is_err());
    cfg.channels_5ghz.clear();
    assert!(cfg.validate_for_chip(Chip::Esp32s3).is_ok());
    let status = cfg.status(Chip::Esp32s3, &DropCounters::default());
    assert_eq!(status.chip, Chip::Esp32s3);
    assert_eq!(status.chip.wifi_bands()[0], "2.4");
    let status = cfg.status(Chip::Esp32c5, &DropCounters::default());
    assert_eq!(status.chip.wifi_bands()[1], "5");
}

#[test]
fn error_messages_of_refused_sets() {
    let mut cfg = DeviceConfig::default();
    let e = apply_cmd(&mut cfg, with(|c| if let Command::SetConfig { dwell_ms, .. } = c { *dwell_ms = Some(99) }))
        .unwrap_err();
    assert_eq!(e, Error::Config("dwell_ms must be 100-2000".to_string()));
    let e = apply_cmd(&mut cfg, with(|c| if let Command::SetConfig { channels_5ghz, .. } = c {
        *channels_5ghz = Some(vec![36, 200, 1])
    }))
    .unwrap_err();
    assert_eq!(e.message(), "invalid 5 GHz channel 200");
    let e = apply_cmd(&mut cfg, with(|c| if let Command::SetConfig { hopmask, .. } = c { *hopmask = Some(0x8000) }))
        .unwrap_err();
    assert_eq!(e.message(), "invalid hopmask: 0x8000");
    let e = apply_cmd(&mut cfg, with(|c| if let Command::SetConfig { wifi_types, .. } = c { *wifi_types = Some(vec![]) }))
        .unwrap_err();
    assert_eq!(e.message(), "wifi_types must not be empty");
    let mut cfg = DeviceConfig::default();
    apply_cmd(&mut cfg, with(|c| if let Command::SetConfig { wifi_band, .. } = c { *wifi_band = Some(WifiBand::FiveG) }))
        .unwrap();
    assert_eq!(cfg.validate_for_chip(Chip::Esp32s3).unwrap_err().message(), "ESP32-S3 supports 2.4 GHz WiFi only");
}

#[test]
fn refused_set_keeps_fields_written_before_the_bad_one() {
    let mut cfg = DeviceConfig::default();
    let r = apply_cmd(&mut cfg, with(|c| if let Command::SetConfig { dwell_ms, wifi_types, radio, .. } = c {
        *dwell_ms = Some(500);
        *wifi_types = Some(vec![]);
        *radio = Some(Radio::Ble);
    }));
    assert!(r.is_err());
    assert_eq!(cfg.dwell_ms, 500);
    assert_eq!(cfg.radio, Radio::Off);
}

#[test]
fn status_reports_the_configuration() {
    let cfg = DeviceConfig::default();
    let drops = DropCounters { ring_overflow: 1, cdc_backpressure: 2, truncated: 3 };
    let s = cfg.status(Chip::Esp32c5, &drops);
    assert_eq!(s.hopmask, "0x0421");
    assert_eq!(s.dwell_ms, 300);
    assert_eq!(s.wifi_types, vec![WifiType::Mgmt, WifiType::Data]);
    assert_eq!(s.radio, Radio::Off);
    assert!(!s.running);
    assert_eq!(s.drops, drops);
}
