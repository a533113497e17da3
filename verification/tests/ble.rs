use espcap::ble::{display_addr, parse_adv, scan_units, scan_window, AdvFields};

#[test]
fn empty_and_truncated() {
    assert_eq!(parse_adv(&[]), AdvFields::default());
    assert_eq!(parse_adv(&[0]), AdvFields::default());
    assert_eq!(parse_adv(&[3, 0x09, b'a']), AdvFields::default());
}

#[test]
fn complete_name_wins_over_short() {
    let data = [0x03, 0x08, b'x', b'y', 0x04, 0x09, b'A', b'p', b'p'];
    let f = parse_adv(&data);
    assert_eq!(f.name.as_deref(), Some("App"));
}

#[test]
fn short_name_and_company_id() {
    let data = [0x03, 0x08, b'n', b'1', 0x03, 0xff, 0x4c, 0x00];
    let f = parse_adv(&data);
    assert_eq!(f.name.as_deref(), Some("n1"));
    assert_eq!(f.company_id, Some(0x004c));
    let noisy = [0x05, 0x09, b'A', 0x1b, b'\n', b'B'];
    assert_eq!(parse_adv(&noisy).name.as_deref(), Some("AB"));
}

#[test]
fn skips_unknown_and_short_mfg() {
    let data = [0x02, 0x01, 0x06, 0x02, 0xff, 0x4c];
    let f = parse_adv(&data);
    assert_eq!(f, AdvFields::default());
}

#[test]
fn scan_units_scale_and_clamp() {
    assert_eq!(scan_units(100), 160);
    assert_eq!(scan_units(30), 48);
    assert_eq!(scan_units(0), 4);
    assert_eq!(scan_units(2), 4);
    assert_eq!(scan_units(10_240), 0x4000);
    assert_eq!(scan_units(u16::MAX), 0x4000);
}

#[test]
fn scan_window_does_not_exceed_interval() {
    assert_eq!(scan_window(100, 30), 48);
    assert_eq!(scan_window(30, 100), scan_units(30));
}

#[test]
fn controller_addr_reverses_for_display() {
    assert_eq!(
        display_addr([0x06, 0x05, 0x04, 0x03, 0x02, 0x01]),
        [0x01, 0x02, 0x03, 0x04, 0x05, 0x06]
    );
    let shown = [0x01, 0x02, 0x03, 0x04, 0x05, 0x06];
    assert_eq!(display_addr(display_addr(shown)), shown);
}

#[test]
fn later_complete_name_replaces_earlier_one_and_mfg_keeps_last() {
    let data = [0x02, 0x09, b'a', 0x02, 0x09, b'b', 0x03, 0xff, 0x01, 0x02, 0x03, 0xff, 0x4c, 0x00, 0x02, 0x08, b'z'];
    let f = parse_adv(&data);
    assert_eq!(f.name.as_deref(), Some("b"));
    assert_eq!(f.company_id, Some(0x004c));
}

#[test]
fn invalid_utf8_name_is_replaced_then_dropped() {
    let data = [0x04, 0x09, b'o', 0xff, b'k'];
    assert_eq!(parse_adv(&data).name.as_deref(), Some("ok"));
}
