use espcap::ring::{PushOutcome, WifiHdr, WifiRing, WifiSlot, WIFI_RING_SLOTS, WIFI_SNAP_LEN};

fn hdr(ts_ms: u64) -> WifiHdr {
    WifiHdr { rssi: -40, channel: 6, freq_mhz: 2437, is_5ghz: false, rate: 2, ts_ms }
}

#[test]
fn empty_pop_is_none() {
    assert!(WifiRing::new().try_pop().is_none());
    assert!(WifiRing::default().try_pop().is_none());
}

#[test]
fn push_pop_preserves_bytes_and_header() {
    let mut ring = WifiRing::new();
    let src = [1u8, 2, 3, 4];
    assert_eq!(ring.try_push(hdr(9), &src, src.len()), PushOutcome::Stored { truncated: false });
    let slot = ring.try_pop().unwrap();
    assert_eq!(slot.hdr, hdr(9));
    assert_eq!(slot.payload(), &src);
    assert!(ring.try_pop().is_none());
}

#[test]
fn full_drops_without_overwrite() {
    let mut ring = WifiRing::new();
    for i in 0..WIFI_RING_SLOTS {
        let b = [i as u8];
        assert_eq!(ring.try_push(hdr(i as u64), &b, 1), PushOutcome::Stored { truncated: false });
    }
    assert_eq!(ring.try_push(hdr(99), &[0xff], 1), PushOutcome::Full);
    let first = ring.try_pop().unwrap();
    assert_eq!(first.hdr.ts_ms, 0);
    assert_eq!(first.payload(), &[0]);
}

#[test]
fn wrap_reuses_slots() {
    let mut ring = WifiRing::new();
    for i in 0..WIFI_RING_SLOTS {
        assert!(matches!(ring.try_push(hdr(i as u64), &[i as u8], 1), PushOutcome::Stored { truncated: false }));
    }
    assert_eq!(ring.try_pop().unwrap().payload(), &[0]);
    assert_eq!(ring.try_push(hdr(100), &[0xaa], 1), PushOutcome::Stored { truncated: false });
    for i in 1..WIFI_RING_SLOTS {
        assert_eq!(ring.try_pop().unwrap().payload(), &[i as u8]);
    }
    assert_eq!(ring.try_pop().unwrap().payload(), &[0xaa]);
    assert!(ring.try_pop().is_none());
}

#[test]
fn copies_min_of_src_sig_and_snap_and_flags_trunc() {
    let mut ring = WifiRing::new();
    let src = vec![7u8; WIFI_SNAP_LEN + 8];
    assert_eq!(ring.try_push(hdr(1), &src, src.len()), PushOutcome::Stored { truncated: true });
    let slot = ring.try_pop().unwrap();
    assert_eq!(slot.payload().len(), WIFI_SNAP_LEN);
    assert_eq!(slot.payload()[0], 7);
    assert_eq!(ring.try_push(hdr(2), &[1, 2, 3], 1), PushOutcome::Stored { truncated: false });
    assert_eq!(ring.try_pop().unwrap().payload(), &[1]);
    assert_eq!(ring.try_push(hdr(3), &[9, 8], 8), PushOutcome::Stored { truncated: true });
    assert_eq!(ring.try_pop().unwrap().payload(), &[9, 8]);
    assert_eq!(ring.try_push(hdr(4), &[], 0), PushOutcome::Stored { truncated: false });
    assert_eq!(ring.try_pop().unwrap().payload(), &[] as &[u8]);
    assert_eq!(WifiSlot::empty().payload(), &[] as &[u8]);
    assert_eq!(WifiSlot::empty().len, 0);
}

#[test]
fn empty_slot_is_all_zero() {
    let s = WifiSlot::empty();
    assert_eq!(s.hdr, WifiHdr { rssi: 0, channel: 0, freq_mhz: 0, is_5ghz: false, rate: 0, ts_ms: 0 });
    assert!(s.payload.iter().all(|&b| b == 0));
    assert_eq!(s.payload.len(), WIFI_SNAP_LEN);
}

#[test]
fn len_counts_queued_frames() {
    let mut ring = WifiRing::new();
    assert_eq!(ring.len(), 0);
    ring.try_push(hdr(1), &[1], 1);
    ring.try_push(hdr(2), &[2], 1);
    assert_eq!(ring.len(), 2);
    ring.try_pop();
    assert_eq!(ring.len(), 1);
}
