use espcap::wifi::{
    beacon_fixture, bssid_string, clamp_copy_len, discovery_mac, frame_subtype, frame_type, parse_80211,
    probe_req_fixture, probe_resp_fixture, Discovery, FrameKind, SUBTYPE_BEACON, SUBTYPE_PROBE_RESP,
};
use espcap::error::Error;

#[test]
fn parse_beacon_probe_data_ctrl() {
    let bssid = [0x11, 0x22, 0x33, 0x44, 0x55, 0x66];
    let beacon = beacon_fixture(bssid, "Flock");
    let p = parse_80211(&beacon).unwrap();
    assert_eq!(p.kind, FrameKind::Mgmt);
    assert_eq!(p.subtype, SUBTYPE_BEACON);
    assert_eq!(p.ssid.as_deref(), Some("Flock"));
    assert_eq!(p.discovery, [Some(Discovery::Ap { bssid }), None, None]);
    assert_eq!(discovery_mac(&p), Some(bssid));
    assert_eq!(bssid_string(&bssid), "11:22:33:44:55:66");
    let sta = parse_80211(&probe_req_fixture([0xaa; 6], Some("Flock"))).unwrap();
    assert_eq!(discovery_mac(&sta), Some([0xaa; 6]));
    let mut data_only = vec![0x08, 0, 0, 0];
    data_only.extend_from_slice(&[1u8; 20]);
    assert_eq!(discovery_mac(&parse_80211(&data_only).unwrap()), None);

    let pr = probe_req_fixture([0xaa; 6], Some("Flock"));
    let p = parse_80211(&pr).unwrap();
    assert_eq!(p.discovery, [Some(Discovery::Sta { mac: [0xaa; 6] }), None, None]);
    assert_eq!(p.ssid.as_deref(), Some("Flock"));

    let pv = probe_resp_fixture(bssid, "x");
    assert_eq!(parse_80211(&pv).unwrap().subtype, SUBTYPE_PROBE_RESP);

    let mut data = vec![0x08, 0, 0, 0];
    data.extend_from_slice(&[1u8; 20]);
    let p = parse_80211(&data).unwrap();
    assert_eq!(p.kind, FrameKind::Data);
    assert_eq!(p.discovery, [None, None, None]);

    let mut ctrl = vec![0xb4, 0, 0, 0];
    ctrl.extend_from_slice(&[2u8; 12]);
    let p = parse_80211(&ctrl).unwrap();
    assert_eq!(p.kind, FrameKind::Ctrl);
    assert!(p.addr3.is_none());

    let mut other = vec![0x0c, 0, 0, 0];
    other.extend_from_slice(&[3u8; 20]);
    assert_eq!(parse_80211(&other).unwrap().kind, FrameKind::Other);

    assert!(parse_80211(&[0u8; 10]).is_err());
    let mut short_mgmt = vec![0x80, 0, 0, 0];
    short_mgmt.extend_from_slice(&[4u8; 12]);
    assert!(parse_80211(&short_mgmt).is_err());
    assert_eq!(clamp_copy_len(3000, 100, 2500), 100);
    assert_eq!(frame_type(0x80), 0);
    assert_eq!(frame_subtype(0x80), 8);
    let mut assoc = vec![0x00, 0, 0, 0];
    assoc.extend_from_slice(&[9u8; 20]);
    assert!(parse_80211(&assoc).unwrap().ssid.is_none());
    let mut trunc_ie = beacon_fixture(bssid, "ab");
    trunc_ie.pop();
    assert!(parse_80211(&trunc_ie).unwrap().ssid.is_none());
    let mut no_ssid = beacon_fixture(bssid, "ab");
    no_ssid.truncate(36);
    no_ssid.extend_from_slice(&[1, 1, 0]);
    assert!(parse_80211(&no_ssid).unwrap().ssid.is_none());
    assert!(parse_80211(&probe_req_fixture([0xbb; 6], None)).unwrap().ssid.is_none());
}

fn data_frame(fc1: u8, addr1: [u8; 6], addr2: [u8; 6]) -> Vec<u8> {
    let mut f = vec![0x08, fc1, 0, 0];
    f.extend_from_slice(&addr1);
    f.extend_from_slice(&addr2);
    f.extend_from_slice(&[0x11; 6]);
    f.extend_from_slice(&[0, 0]);
    f
}

#[test]
fn probe_resp_and_data_discover_stations() {
    let bssid = [0x11, 0x22, 0x33, 0x44, 0x55, 0x66];
    let sta = [0x3c, 0x71, 0xbf, 0xd2, 0x2a, 0x70];
    let other = [0x02, 0x11, 0x22, 0x33, 0x44, 0x55];
    let mut pv = probe_resp_fixture(bssid, "x");
    pv[4..10].copy_from_slice(&sta);
    assert_eq!(
        parse_80211(&pv).unwrap().discovery,
        [Some(Discovery::Ap { bssid }), Some(Discovery::Sta { mac: sta }), None]
    );
    let mut same = probe_resp_fixture(bssid, "x");
    same[4..10].copy_from_slice(&bssid);
    assert_eq!(parse_80211(&same).unwrap().discovery, [Some(Discovery::Ap { bssid }), None, None]);
    let mut beacon = beacon_fixture(bssid, "x");
    beacon[4..10].copy_from_slice(&sta);
    assert_eq!(parse_80211(&beacon).unwrap().discovery, [Some(Discovery::Ap { bssid }), None, None]);

    assert_eq!(
        parse_80211(&data_frame(0x02, sta, bssid)).unwrap().discovery,
        [Some(Discovery::Sta { mac: sta }), None, None]
    );
    assert_eq!(
        parse_80211(&data_frame(0x01, bssid, sta)).unwrap().discovery,
        [Some(Discovery::Sta { mac: sta }), None, None]
    );
    assert_eq!(
        parse_80211(&data_frame(0x00, sta, other)).unwrap().discovery,
        [Some(Discovery::Sta { mac: sta }), Some(Discovery::Sta { mac: other }), None]
    );
    assert_eq!(
        parse_80211(&data_frame(0x00, sta, sta)).unwrap().discovery,
        [Some(Discovery::Sta { mac: sta }), None, None]
    );
    assert_eq!(
        parse_80211(&data_frame(0x02, [0x01, 0, 0, 0, 0, 1], bssid)).unwrap().discovery,
        [None, None, None]
    );
    assert_eq!(
        parse_80211(&data_frame(0x01, bssid, [0xff; 6])).unwrap().discovery,
        [None, None, None]
    );
    assert_eq!(
        parse_80211(&data_frame(0x03, sta, other)).unwrap().discovery,
        [None, None, None]
    );
    assert_eq!(
        parse_80211(&data_frame(0x00, [0x01; 6], other)).unwrap().discovery,
        [Some(Discovery::Sta { mac: other }), None, None]
    );
}

#[test]
fn ssid_strips_trailing_nuls_and_invalid_bytes() {
    let bssid = [0x11, 0x22, 0x33, 0x44, 0x55, 0x66];
    let padded = beacon_fixture(bssid, &(String::from("Flock") + "\0\0\0"));
    assert_eq!(parse_80211(&padded).unwrap().ssid.as_deref(), Some("Flock"));
    let hidden = beacon_fixture(bssid, &"\0".repeat(32));
    assert_eq!(parse_80211(&hidden).unwrap().ssid.as_deref(), Some(""));
    let mut junk = beacon_fixture(bssid, "ab");
    let ie = junk.len() - 2;
    junk[ie] = 0xff;
    junk[ie + 1] = 0xfe;
    assert_eq!(parse_80211(&junk).unwrap().ssid.as_deref(), Some(""));
}

#[test]
fn fixtures_have_the_expected_layout() {
    let b = beacon_fixture([1, 2, 3, 4, 5, 6], "ab");
    assert_eq!(b.len(), 24 + 12 + 2 + 2);
    assert_eq!(b[0], 0x80);
    assert_eq!(&b[10..16], &[1, 2, 3, 4, 5, 6]);
    assert_eq!(&b[16..22], &[1, 2, 3, 4, 5, 6]);
    assert_eq!(&b[36..40], &[0, 2, b'a', b'b']);
    let r = probe_req_fixture([7; 6], None);
    assert_eq!(r.len(), 24);
    assert_eq!(r[0], 0x40);
    assert_eq!(parse_80211(&[0u8; 15]), Err(Error::ShortFrame));
}
