use espcap::error::Error;
use espcap::mac::{format_mac, format_oui, oui_of, parse_mac, parse_oui, payload_hex, visible_text};

#[test]
fn mac_round_trip_colon_and_bare() {
    let mac = parse_mac("F4:4E:FC:00:11:22").unwrap();
    assert_eq!(mac, [0xf4, 0x4e, 0xfc, 0x00, 0x11, 0x22]);
    assert_eq!(format_mac(&mac), "f4:4e:fc:00:11:22");
    assert_eq!(parse_mac("f44efc001122").unwrap(), mac);
    assert_eq!(parse_mac("F4-4E-FC-00-11-22").unwrap(), mac);
    assert_eq!(oui_of(&mac), [0xf4, 0x4e, 0xfc]);
    assert_eq!(format_oui(&oui_of(&mac)), "f4:4e:fc");
    assert_eq!(parse_oui("F4:4E:FC").unwrap(), [0xf4, 0x4e, 0xfc]);
}

#[test]
fn mac_rejects_bad_input() {
    assert!(parse_mac("aa:bb").is_err());
    assert!(parse_mac("zz:zz:zz:zz:zz:zz").is_err());
    assert!(parse_oui("gggggg").is_err());
    assert_eq!(payload_hex(&[0xde, 0xad]), "dead");
}

#[test]
fn bad_mac_error_carries_the_input() {
    assert_eq!(parse_mac("aa:bb"), Err(Error::Mac("aa:bb".to_string())));
    assert_eq!(parse_oui("f4:4e"), Err(Error::Mac("f4:4e".to_string())));
    assert_eq!(Error::Mac("x".to_string()).message(), "invalid mac: x");
}

#[test]
fn format_then_parse_gives_the_address_back() {
    let mac = [0x00, 0x1a, 0xff, 0x80, 0x7f, 0x09];
    assert_eq!(parse_mac(&format_mac(&mac)).unwrap(), mac);
    assert_eq!(payload_hex(&[]), "");
}

#[test]
fn visible_text_drops_controls_and_replacement() {
    assert_eq!(visible_text("a\u{1b}b\n\u{fffd}c\u{85}"), "abc");
}
