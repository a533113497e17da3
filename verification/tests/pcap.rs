use espcap::error::Error;
use espcap::pcap::{
    ble_pcap_payload, btle_rf_phdr, decode_frames, encode_frame, parse_global_header, pcap_global_header, pcap_record,
    radiotap, reconstruct_adv_pdu, wifi_pcap_payload, ADV_AA, DLT_BLUETOOTH_LE_LL_WITH_PHDR, DLT_IEEE802_11_RADIO,
    FRAME_MAGIC, TYPE_BLE, TYPE_WIFI,
};
use espcap::types::freq_mhz;
use espcap::wifi::beacon_fixture;

#[test]
fn frame_round_trip_and_resync() {
    let f = encode_frame(TYPE_WIFI, &[1, 2, 3]);
    assert_eq!(&f[..2], &FRAME_MAGIC);
    let (frames, n) = decode_frames(&f);
    assert_eq!(n, f.len());
    assert_eq!(frames[0].typ, TYPE_WIFI);
    assert_eq!(frames[0].payload, vec![1, 2, 3]);
    let mut noisy = vec![0x00, 0xa5, 0x00];
    noisy.extend_from_slice(&f);
    noisy.extend_from_slice(&[0xa5, 0x5a, TYPE_BLE, 0x00, 0x10]); // incomplete
    let (frames, consumed) = decode_frames(&noisy);
    assert_eq!(frames.len(), 1);
    assert_eq!(consumed, 3 + f.len());
    let empty = decode_frames(&[0xa5]);
    assert!(empty.0.is_empty());
}

#[test]
fn radiotap_2g_5g_and_headers() {
    let rt = radiotap(1500, freq_mhz(6, false), false, -40, 2);
    assert_eq!(rt.len(), 23);
    assert_eq!(u16::from_le_bytes([rt[18], rt[19]]), 2437);
    assert_eq!(u16::from_le_bytes([rt[20], rt[21]]), 0x00c0);
    let rt5 = radiotap(0, freq_mhz(36, true), true, -70, 12);
    assert_eq!(u16::from_le_bytes([rt5[18], rt5[19]]), 5180);
    assert_eq!(u16::from_le_bytes([rt5[20], rt5[21]]), 0x0140);
    let gh = pcap_global_header(DLT_IEEE802_11_RADIO);
    assert_eq!(parse_global_header(&gh).unwrap(), 127);
    let ble_h = pcap_global_header(DLT_BLUETOOTH_LE_LL_WITH_PHDR);
    assert_eq!(parse_global_header(&ble_h).unwrap(), 256);
    assert!(parse_global_header(&[0; 10]).is_err());
    let mut bad = gh;
    bad[0] = 0;
    assert!(parse_global_header(&bad).is_err());
    let mpdu = beacon_fixture([1; 6], "n");
    let payload = wifi_pcap_payload(2500, 2412, false, -30, 2, &mpdu);
    assert_eq!(payload.len(), 16 + 23 + mpdu.len());
    assert_eq!(u32::from_le_bytes(payload[0..4].try_into().unwrap()), 2);
    assert_eq!(u32::from_le_bytes(payload[4..8].try_into().unwrap()), 500_000);
}

#[test]
fn ble_reconstruct_dlt256() {
    let addr = [0xf4, 0x4e, 0xfc, 1, 2, 3];
    let payload = ble_pcap_payload(0, -60, 39, &addr, true, &[0x08, 0x09, b'A']);
    assert!(payload.len() > 16 + 10);
    let pdu = reconstruct_adv_pdu(&addr, false, &[]);
    assert_eq!(pdu[0] & 0x40, 0);
    let pdu_r = reconstruct_adv_pdu(&addr, true, &[1]);
    assert_ne!(pdu_r[0] & 0x40, 0);
    let phdr = btle_rf_phdr(-50, 39);
    assert_eq!(phdr[0], 39);
    assert_eq!(u32::from_le_bytes(phdr[4..8].try_into().unwrap()), ADV_AA);
}

#[test]
fn frame_header_layout() {
    assert_eq!(encode_frame(TYPE_BLE, &[9, 8]), vec![0xa5, 0x5a, TYPE_BLE, 0x00, 0x02, 9, 8]);
    let big = vec![0u8; 300];
    let f = encode_frame(TYPE_WIFI, &big);
    assert_eq!(&f[3..5], &[0x01, 0x2c]);
    let (frames, n) = decode_frames(&f);
    assert_eq!(n, f.len());
    assert_eq!(frames[0].payload.len(), 300);
}

#[test]
fn global_header_fields() {
    let gh = pcap_global_header(DLT_IEEE802_11_RADIO);
    assert_eq!(&gh[0..4], &[0xd4, 0xc3, 0xb2, 0xa1]);
    assert_eq!(&gh[4..8], &[2, 0, 4, 0]);
    assert_eq!(u32::from_le_bytes(gh[16..20].try_into().unwrap()), 2500);
    assert_eq!(parse_global_header(&gh[..23]), Err(Error::TruncatedFrame));
    let mut bad = gh;
    bad[3] = 0;
    assert_eq!(parse_global_header(&bad), Err(Error::BadMagic));
}

#[test]
fn record_header_splits_milliseconds() {
    let rec = pcap_record(1234, &[0xaa, 0xbb]);
    assert_eq!(rec, vec![1, 0, 0, 0, 0x10, 0x92, 0x03, 0, 2, 0, 0, 0, 2, 0, 0, 0, 0xaa, 0xbb]);
}

#[test]
fn btle_header_and_pdu_bytes() {
    assert_eq!(btle_rf_phdr(-50, 39), [39, 0xce, 0, 0, 0xd6, 0xbe, 0x89, 0x8e, 0x03, 0x00]);
    let addr = [1, 2, 3, 4, 5, 6];
    assert_eq!(reconstruct_adv_pdu(&addr, true, &[7, 7]), vec![0x40, 8, 1, 2, 3, 4, 5, 6, 7, 7]);
}
