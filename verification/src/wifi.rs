//! 802.11 frame parsing for discovery and capture.
use vstd::prelude::*;
use crate::ble::{name_text, opt_text};
use crate::error::Error;
use crate::mac::{colon_hex, format_mac, visible_text};
use crate::pcap::push_bytes;
use crate::text::decode_lossy;
use vstd::string::StringSliceAdditionalSpecFns;

verus! {

pub const FC_TYPE_MGMT: u8 = 0;
pub const FC_TYPE_CTRL: u8 = 1;
pub const FC_TYPE_DATA: u8 = 2;
pub const SUBTYPE_PROBE_REQ: u8 = 4;
pub const SUBTYPE_PROBE_RESP: u8 = 5;
pub const SUBTYPE_BEACON: u8 = 8;

#[derive(Debug, Clone, Copy, PartialEq, Eq, Structural)]
pub enum FrameKind {
    Mgmt,
    Ctrl,
    Data,
    Other,
}

#[derive(Debug, Clone, Copy, PartialEq, Eq)]
pub enum Discovery {
    Ap { bssid: [u8; 6] },
    Sta { mac: [u8; 6] },
}

#[derive(Debug, Clone, PartialEq, Eq)]
pub struct ParsedWifi {
    pub kind: FrameKind,
    pub subtype: u8,
    pub addr1: [u8; 6],
    pub addr2: [u8; 6],
    pub addr3: Option<[u8; 6]>,
    pub ssid: Option<String>,
    /// AP first, then up to two stations (probe-response receiver, data SA/DA).
    pub discovery: [Option<Discovery>; 3],
}

pub open spec fn spec_frame_type(fc0: u8) -> u8 {
    (fc0 >> 2) & 0x3
}

pub open spec fn spec_frame_subtype(fc0: u8) -> u8 {
    (fc0 >> 4) & 0xf
}

/// Frame type: bits 2..3 of the first frame-control byte.
pub fn frame_type(fc0: u8) -> (t: u8)
    ensures
        t == spec_frame_type(fc0),
        t < 4,
{
    assert((fc0 >> 2) & 0x3 < 4) by (bit_vector);
    (fc0 >> 2) & 0x3
}

/// Frame subtype: bits 4..7 of the first frame-control byte.
pub fn frame_subtype(fc0: u8) -> (t: u8)
    ensures
        t == spec_frame_subtype(fc0),
        t < 16,
{
    assert((fc0 >> 4) & 0xf < 16) by (bit_vector);
    (fc0 >> 4) & 0xf
}

/// The number of MPDU bytes to copy: the smallest of the reported length, the
/// bytes available and the capacity.
pub fn clamp_copy_len(sig_len: usize, avail: usize, cap: usize) -> (n: usize)
    ensures
        n <= sig_len && n <= avail && n <= cap,
        n == sig_len || n == avail || n == cap,
{
    let a = if sig_len <= avail {
        sig_len
    } else {
        avail
    };
    if a <= cap {
        a
    } else {
        cap
    }
}

pub open spec fn kind_of(fc0: u8) -> FrameKind {
    let t = spec_frame_type(fc0);
    if t == FC_TYPE_MGMT {
        FrameKind::Mgmt
    } else if t == FC_TYPE_CTRL {
        FrameKind::Ctrl
    } else if t == FC_TYPE_DATA {
        FrameKind::Data
    } else {
        FrameKind::Other
    }
}

/// An MPDU is long enough when it holds addr1 and addr2 (16 bytes), and also
/// addr3 (24 bytes) unless it is a control frame.
pub open spec fn frame_long_enough(m: Seq<u8>) -> bool {
    m.len() >= 16 && (kind_of(m[0]) == FrameKind::Ctrl || m.len() >= 24)
}

pub open spec fn spec_addr1(m: Seq<u8>) -> Seq<u8> {
    m.subrange(4, 10)
}

pub open spec fn spec_addr2(m: Seq<u8>) -> Seq<u8> {
    m.subrange(10, 16)
}

pub open spec fn spec_addr3(m: Seq<u8>) -> Option<Seq<u8>> {
    if kind_of(m[0]) == FrameKind::Ctrl {
        None
    } else {
        Some(m.subrange(16, 22))
    }
}

/// The bytes without their trailing NUL padding.
pub open spec fn trim_nul(raw: Seq<u8>) -> Seq<u8>
    decreases raw.len(),
{
    if raw.len() > 0 && raw.last() == 0 {
        trim_nul(raw.drop_last())
    } else {
        raw
    }
}

/// The SSID found by walking tagged elements `(tag, len, value)` from `i`:
/// the first element with tag 0 gives the SSID; a truncated element or the
/// end of the frame ends the walk without one.
pub open spec fn ssid_from(m: Seq<u8>, i: int) -> Option<Seq<char>>
    decreases m.len() - i,
{
    if i < 0 || i + 2 > m.len() {
        None
    } else {
        let tag = m[i];
        let len = m[i + 1] as int;
        if i + 2 + len > m.len() {
            None
        } else if tag == 0 {
            Some(name_text(trim_nul(m.subrange(i + 2, i + 2 + len))))
        } else {
            ssid_from(m, i + 2 + len)
        }
    }
}

/// Beacons and probe responses carry their elements after 12 fixed bytes
/// (offset 36), probe requests right after the header (offset 24).
pub open spec fn spec_ssid(m: Seq<u8>) -> Option<Seq<char>> {
    if kind_of(m[0]) == FrameKind::Mgmt {
        let st = spec_frame_subtype(m[0]);
        if st == SUBTYPE_BEACON || st == SUBTYPE_PROBE_RESP {
            ssid_from(m, 36)
        } else if st == SUBTYPE_PROBE_REQ {
            ssid_from(m, 24)
        } else {
            None
        }
    } else {
        None
    }
}

pub open spec fn is_unicast(mac: Seq<u8>) -> bool {
    mac[0] % 2 == 0
}

/// A discovered address: (true, bssid) for an access point, (false, mac) for a station.
pub open spec fn sta_if_unicast(mac: Seq<u8>) -> Seq<(bool, Seq<u8>)> {
    if is_unicast(mac) {
        seq![(false, mac)]
    } else {
        Seq::empty()
    }
}

/// The devices a frame reveals, in order. Beacons and probe responses reveal
/// the AP (addr3); a probe response also reveals its unicast receiver when that
/// is not the AP. Probe requests reveal the sender. Data frames reveal the
/// unicast station: the receiver when only FromDS is set, the sender when only
/// ToDS is set, both (once if equal) when neither is set, none when both are.
pub open spec fn spec_discovery(m: Seq<u8>) -> Seq<(bool, Seq<u8>)> {
    let kind = kind_of(m[0]);
    let st = spec_frame_subtype(m[0]);
    let a1 = spec_addr1(m);
    let a2 = spec_addr2(m);
    if kind == FrameKind::Mgmt && (st == SUBTYPE_BEACON || st == SUBTYPE_PROBE_RESP) {
        let bssid = m.subrange(16, 22);
        seq![(true, bssid)] + if st == SUBTYPE_PROBE_RESP && a1 != bssid {
            sta_if_unicast(a1)
        } else {
            Seq::empty()
        }
    } else if kind == FrameKind::Mgmt && st == SUBTYPE_PROBE_REQ {
        seq![(false, a2)]
    } else if kind == FrameKind::Data {
        let to_ds = m[1] % 2 == 1;
        let from_ds = m[1] / 2 % 2 == 1;
        if !to_ds && from_ds {
            sta_if_unicast(a1)
        } else if to_ds && !from_ds {
            sta_if_unicast(a2)
        } else if !to_ds && !from_ds {
            sta_if_unicast(a1) + if a2 != a1 {
                sta_if_unicast(a2)
            } else {
                Seq::empty()
            }
        } else {
            Seq::empty()
        }
    } else {
        Seq::empty()
    }
}

pub open spec fn disc_view(d: Option<Discovery>) -> Option<(bool, Seq<u8>)> {
    match d {
        Some(Discovery::Ap { bssid }) => Some((true, bssid@)),
        Some(Discovery::Sta { mac }) => Some((false, mac@)),
        None => None,
    }
}

/// The three discovery slots of a parsed frame.
pub open spec fn slots_view(slots: [Option<Discovery>; 3]) -> Seq<Option<(bool, Seq<u8>)>> {
    seq![disc_view(slots[0]), disc_view(slots[1]), disc_view(slots[2])]
}

/// A list of at most three discoveries laid out in the three slots.
pub open spec fn slots_of(list: Seq<(bool, Seq<u8>)>) -> Seq<Option<(bool, Seq<u8>)>> {
    Seq::new(3, |k: int| if k < list.len() { Some(list[k]) } else { None })
}

pub open spec fn addr3_view(a: Option<[u8; 6]>) -> Option<Seq<u8>> {
    match a {
        Some(x) => Some(x@),
        None => None,
    }
}

fn read_addr(buf: &[u8], off: usize) -> (r: Result<[u8; 6], Error>)
    ensures
        off + 6 <= buf.len() ==> (r matches Ok(a) && a@ == buf@.subrange(off as int, off + 6)),
        off + 6 > buf.len() ==> r == Err::<[u8; 6], Error>(Error::ShortFrame),
{
    if off > buf.len() || 6 > buf.len() - off {
        return Err(Error::ShortFrame);
    }
    let a = [buf[off], buf[off + 1], buf[off + 2], buf[off + 3], buf[off + 4], buf[off + 5]];
    assert(a@ =~= buf@.subrange(off as int, off + 6));
    Ok(a)
}

fn same_addr(a: &[u8; 6], b: &[u8; 6]) -> (r: bool)
    ensures
        r == (a@ == b@),
{
    let r = a[0] == b[0] && a[1] == b[1] && a[2] == b[2] && a[3] == b[3] && a[4] == b[4] && a[5] == b[5];
    if r {
        assert(a@ =~= b@);
    }
    r
}

/// Number of bytes left once trailing NULs are dropped.
fn trimmed_len(raw: &[u8]) -> (n: usize)
    ensures
        n <= raw.len(),
        raw@.take(n as int) == trim_nul(raw@),
{
    let mut n = raw.len();
    assert(raw@.take(n as int) == raw@);
    while n > 0 && raw[n - 1] == 0
        invariant
            n <= raw.len(),
            trim_nul(raw@.take(n as int)) == trim_nul(raw@),
        decreases n,
    {
        assert(raw@.take(n as int).drop_last() == raw@.take(n - 1));
        n -= 1;
    }
    n
}

fn extract_ssid(mpdu: &[u8], ie_off: usize) -> (r: Option<String>)
    ensures
        opt_text(r) == ssid_from(mpdu@, ie_off as int),
{
    let mut i = ie_off;
    while i <= mpdu.len() && mpdu.len() - i >= 2
        invariant
            ssid_from(mpdu@, ie_off as int) == ssid_from(mpdu@, i as int),
        decreases mpdu.len() - i,
    {
        let tag = mpdu[i];
        let len = mpdu[i + 1] as usize;
        i += 2;
        if len > mpdu.len() - i {
            return None;
        }
        if tag == 0 {
            let raw = &mpdu[i..i + len];
            let n = trimmed_len(raw);
            let text = decode_lossy(&raw[0..n]);
            return Some(visible_text(text.as_str()));
        }
        i += len;
    }
    None
}

fn push_sta(out: &mut Vec<Discovery>, mac: [u8; 6])
    ensures
        disc_list(final(out)@) == disc_list(old(out)@) + sta_if_unicast(mac@),
{
    if mac[0] % 2 == 0 {
        out.push(Discovery::Sta { mac });
        assert(disc_list(out@) =~= disc_list(old(out)@) + sta_if_unicast(mac@));
    } else {
        assert(disc_list(out@) =~= disc_list(old(out)@) + sta_if_unicast(mac@));
    }
}

/// Discoveries as (is AP, address) pairs.
pub open spec fn disc_list(v: Seq<Discovery>) -> Seq<(bool, Seq<u8>)> {
    v.map_values(|d: Discovery| disc_view(Some(d)).unwrap())
}

/// Parses the header of an 802.11 MPDU, its SSID element and the devices it reveals.
pub fn parse_80211(mpdu: &[u8]) -> (r: Result<ParsedWifi, Error>)
    ensures
        !frame_long_enough(mpdu@) ==> r == Err::<ParsedWifi, Error>(Error::ShortFrame),
        frame_long_enough(mpdu@) ==> (r matches Ok(p) && p.kind == kind_of(mpdu@[0]) && p.subtype
            == spec_frame_subtype(mpdu@[0]) && p.addr1@ == spec_addr1(mpdu@) && p.addr2@ == spec_addr2(
            mpdu@,
        ) && addr3_view(p.addr3) == spec_addr3(mpdu@) && opt_text(p.ssid) == spec_ssid(mpdu@)
            && slots_view(p.discovery) == slots_of(spec_discovery(mpdu@))),
{
    if mpdu.len() < 16 {
        return Err(Error::ShortFrame);
    }
    let fc0 = mpdu[0];
    let t = frame_type(fc0);
    let kind = if t == FC_TYPE_MGMT {
        FrameKind::Mgmt
    } else if t == FC_TYPE_CTRL {
        FrameKind::Ctrl
    } else if t == FC_TYPE_DATA {
        FrameKind::Data
    } else {
        FrameKind::Other
    };
    let subtype = frame_subtype(fc0);
    let addr1 = match read_addr(mpdu, 4) {
        Ok(a) => a,
        Err(e) => return Err(e),
    };
    let addr2 = match read_addr(mpdu, 10) {
        Ok(a) => a,
        Err(e) => return Err(e),
    };
    let addr3 = if kind == FrameKind::Ctrl {
        None
    } else if mpdu.len() >= 24 {
        match read_addr(mpdu, 16) {
            Ok(a) => Some(a),
            Err(e) => return Err(e),
        }
    } else {
        return Err(Error::ShortFrame);
    };
    let ssid = if kind == FrameKind::Mgmt {
        if subtype == SUBTYPE_BEACON || subtype == SUBTYPE_PROBE_RESP {
            extract_ssid(mpdu, 36)
        } else if subtype == SUBTYPE_PROBE_REQ {
            extract_ssid(mpdu, 24)
        } else {
            None
        }
    } else {
        None
    };
    let mut found: Vec<Discovery> = Vec::new();
    if kind == FrameKind::Mgmt && (subtype == SUBTYPE_BEACON || subtype == SUBTYPE_PROBE_RESP) {
        let bssid = match addr3 {
            Some(a) => a,
            None => addr2,
        };
        found.push(Discovery::Ap { bssid });
        if subtype == SUBTYPE_PROBE_RESP && !same_addr(&addr1, &bssid) {
            push_sta(&mut found, addr1);
        }
        assert(disc_list(found@) =~= spec_discovery(mpdu@));
    } else if kind == FrameKind::Mgmt && subtype == SUBTYPE_PROBE_REQ {
        found.push(Discovery::Sta { mac: addr2 });
        assert(disc_list(found@) =~= spec_discovery(mpdu@));
    } else if kind == FrameKind::Data {
        let fc1 = mpdu[1];
        let to_ds = fc1 % 2 == 1;
        let from_ds = fc1 / 2 % 2 == 1;
        if !to_ds && from_ds {
            push_sta(&mut found, addr1);
        } else if to_ds && !from_ds {
            push_sta(&mut found, addr2);
        } else if !to_ds && !from_ds {
            push_sta(&mut found, addr1);
            if !same_addr(&addr2, &addr1) {
                push_sta(&mut found, addr2);
            }
        }
        assert(disc_list(found@) =~= spec_discovery(mpdu@));
    } else {
        assert(disc_list(found@) =~= spec_discovery(mpdu@));
    }
    assert(found@.len() <= 2);
    let d0 = if found.len() > 0 {
        Some(found[0])
    } else {
        None
    };
    let d1 = if found.len() > 1 {
        Some(found[1])
    } else {
        None
    };
    let discovery = [d0, d1, None];
    assert(slots_view(discovery) =~= slots_of(spec_discovery(mpdu@)));
    Ok(ParsedWifi { kind, subtype, addr1, addr2, addr3, ssid, discovery })
}

/// The first filled discovery slot.
pub open spec fn first_discovered(slots: Seq<Option<(bool, Seq<u8>)>>) -> Option<Seq<u8>>
    decreases slots.len(),
{
    if slots.len() == 0 {
        None
    } else if slots[0] is Some {
        Some(slots[0].unwrap().1)
    } else {
        first_discovered(slots.drop_first())
    }
}

/// The address of the first device a parsed frame reveals.
pub fn discovery_mac(parsed: &ParsedWifi) -> (r: Option<[u8; 6]>)
    ensures
        addr3_view(r) == first_discovered(slots_view(parsed.discovery)),
{
    let ghost s = slots_view(parsed.discovery);
    assert(s.skip(0) =~= s);
    let mut k: usize = 0;
    while k < 3
        invariant
            k <= 3,
            s == slots_view(parsed.discovery),
            first_discovered(s) == first_discovered(s.skip(k as int)),
        decreases 3 - k,
    {
        assert(s.skip(k + 1) == s.skip(k as int).drop_first());
        match parsed.discovery[k] {
            Some(Discovery::Ap { bssid }) => return Some(bssid),
            Some(Discovery::Sta { mac }) => return Some(mac),
            None => {},
        }
        k += 1;
    }
    assert(s.skip(3).len() == 0);
    None
}

pub fn bssid_string(mac: &[u8; 6]) -> (s: String)
    ensures
        s@ == colon_hex(mac@),
{
    format_mac(mac)
}

/// A management frame with the given addresses, an optional 12-byte fixed part
/// and an optional SSID element (length byte = UTF-8 length modulo 256).
pub open spec fn mgmt_bytes(fc0: u8, addr2: Seq<u8>, addr1: Seq<u8>, addr3: Seq<u8>, ssid: Option<Seq<u8>>, fixed12: bool) -> Seq<u8> {
    seq![fc0, 0u8, 0u8, 0u8] + addr1 + addr2 + addr3 + seq![0u8, 0u8] + (if fixed12 {
        Seq::new(12, |i: int| 0u8)
    } else {
        Seq::empty()
    }) + match ssid {
        Some(s) => seq![0u8, (s.len() % 256) as u8] + s,
        None => Seq::empty(),
    }
}

pub open spec fn opt_bytes(s: Option<&str>) -> Option<Seq<u8>> {
    match s {
        Some(t) => Some(t.spec_bytes()),
        None => None,
    }
}

fn mgmt_fixture(fc0: u8, addr2: [u8; 6], addr1: [u8; 6], addr3: [u8; 6], ssid: Option<&str>, fixed12: bool) -> (f: Vec<u8>)
    ensures
        f@ == mgmt_bytes(fc0, addr2@, addr1@, addr3@, opt_bytes(ssid), fixed12),
{
    let mut f: Vec<u8> = Vec::new();
    f.push(fc0);
    f.push(0);
    f.push(0);
    f.push(0);
    push_bytes(&mut f, &addr1);
    push_bytes(&mut f, &addr2);
    push_bytes(&mut f, &addr3);
    f.push(0);
    f.push(0);
    let ghost head = f@;
    assert(head =~= seq![fc0, 0u8, 0u8, 0u8] + addr1@ + addr2@ + addr3@ + seq![0u8, 0u8]);
    if fixed12 {
        let mut k: usize = 0;
        while k < 12
            invariant
                k <= 12,
                f@ == head + Seq::new(k as nat, |i: int| 0u8),
            decreases 12 - k,
        {
            f.push(0);
            k += 1;
            assert(f@ =~= head + Seq::new(k as nat, |i: int| 0u8));
        }
    } else {
        assert(f@ =~= head + Seq::<u8>::empty());
    }
    let ghost mid = f@;
    match ssid {
        Some(s) => {
            let b = s.as_bytes();
            f.push(0);
            f.push((b.len() % 256) as u8);
            push_bytes(&mut f, b);
            assert(f@ =~= mid + (seq![0u8, (b@.len() % 256) as u8] + b@));
        },
        None => {
            assert(f@ =~= mid + Seq::<u8>::empty());
        },
    }
    f
}

/// A beacon from `bssid` (broadcast receiver) advertising `ssid`.
pub fn beacon_fixture(bssid: [u8; 6], ssid: &str) -> (f: Vec<u8>)
    ensures
        f@ == mgmt_bytes(0x80, bssid@, seq![0xffu8, 0xff, 0xff, 0xff, 0xff, 0xff], bssid@, Some(ssid.spec_bytes()), true),
{
    let bc = [0xffu8; 6];
    assert(bc@ =~= seq![0xffu8, 0xff, 0xff, 0xff, 0xff, 0xff]);
    mgmt_fixture(0x80, bssid, bc, bssid, Some(ssid), true)
}

/// A probe response from `bssid` (broadcast receiver) for `ssid`.
pub fn probe_resp_fixture(bssid: [u8; 6], ssid: &str) -> (f: Vec<u8>)
    ensures
        f@ == mgmt_bytes(0x50, bssid@, seq![0xffu8, 0xff, 0xff, 0xff, 0xff, 0xff], bssid@, Some(ssid.spec_bytes()), true),
{
    let bc = [0xffu8; 6];
    assert(bc@ =~= seq![0xffu8, 0xff, 0xff, 0xff, 0xff, 0xff]);
    mgmt_fixture(0x50, bssid, bc, bssid, Some(ssid), true)
}

/// A broadcast probe request from `sta`, with or without an SSID element.
pub fn probe_req_fixture(sta: [u8; 6], ssid: Option<&str>) -> (f: Vec<u8>)
    ensures
        f@ == mgmt_bytes(0x40, sta@, seq![0xffu8, 0xff, 0xff, 0xff, 0xff, 0xff], seq![0xffu8, 0xff, 0xff, 0xff, 0xff, 0xff], opt_bytes(ssid), false),
{
    let bc = [0xffu8; 6];
    assert(bc@ =~= seq![0xffu8, 0xff, 0xff, 0xff, 0xff, 0xff]);
    mgmt_fixture(0x40, sta, bc, bc, ssid, false)
}

} // verus!

verus! {

/// A beacon built for a BSSID and an SSID of at most 255 bytes parses back as
/// a management beacon that reveals that BSSID as an AP and carries that SSID
/// (its visible text, without NUL padding).
pub proof fn lemma_beacon_round_trip(bssid: Seq<u8>, ssid: Seq<u8>)
    requires
        bssid.len() == 6,
        ssid.len() <= 255,
    ensures
        ({
            let m = mgmt_bytes(0x80, bssid, seq![0xffu8, 0xff, 0xff, 0xff, 0xff, 0xff], bssid, Some(ssid), true);
            &&& frame_long_enough(m)
            &&& kind_of(m[0]) == FrameKind::Mgmt
            &&& spec_frame_subtype(m[0]) == SUBTYPE_BEACON
            &&& spec_addr2(m) == bssid
            &&& spec_ssid(m) == Some(name_text(trim_nul(ssid)))
            &&& spec_discovery(m) == seq![(true, bssid)]
        }),
{
    let bc = seq![0xffu8, 0xff, 0xff, 0xff, 0xff, 0xff];
    let m = mgmt_bytes(0x80, bssid, bc, bssid, Some(ssid), true);
    assert(((0x80u8 >> 2u8) & 0x3u8) == 0u8 && ((0x80u8 >> 4u8) & 0xfu8) == 8u8) by (bit_vector);
    assert(m[0] == 0x80);
    assert(m.len() == 38 + ssid.len());
    assert(spec_addr2(m) =~= bssid);
    assert(m.subrange(16, 22) =~= bssid);
    assert(m[36] == 0 && m[37] == ssid.len());
    assert(m.subrange(38, 38 + ssid.len() as int) =~= ssid);
    assert(spec_ssid(m) == ssid_from(m, 36));
    assert(spec_discovery(m) =~= seq![(true, bssid)]);
}

/// A probe request built for a station reveals that station, and carries the
/// SSID when one was given.
pub proof fn lemma_probe_req_round_trip(sta: Seq<u8>, ssid: Option<Seq<u8>>)
    requires
        sta.len() == 6,
        ssid matches Some(s) ==> s.len() <= 255,
    ensures
        ({
            let bc = seq![0xffu8, 0xff, 0xff, 0xff, 0xff, 0xff];
            let m = mgmt_bytes(0x40, sta, bc, bc, ssid, false);
            &&& frame_long_enough(m)
            &&& kind_of(m[0]) == FrameKind::Mgmt
            &&& spec_frame_subtype(m[0]) == SUBTYPE_PROBE_REQ
            &&& spec_discovery(m) == seq![(false, sta)]
            &&& spec_ssid(m) == match ssid {
                Some(s) => Some(name_text(trim_nul(s))),
                None => None::<Seq<char>>,
            }
        }),
{
    let bc = seq![0xffu8, 0xff, 0xff, 0xff, 0xff, 0xff];
    let m = mgmt_bytes(0x40, sta, bc, bc, ssid, false);
    assert(((0x40u8 >> 2u8) & 0x3u8) == 0u8 && ((0x40u8 >> 4u8) & 0xfu8) == 4u8) by (bit_vector);
    assert(m[0] == 0x40);
    assert(spec_addr2(m) =~= sta);
    assert(spec_ssid(m) == ssid_from(m, 24));
    match ssid {
        Some(s) => {
            assert(m.len() == 26 + s.len());
            assert(m[24] == 0 && m[25] == s.len());
            assert(m.subrange(26, 26 + s.len() as int) =~= s);
        },
        None => {
            assert(m.len() == 24);
        },
    }
    assert(spec_discovery(m) =~= seq![(false, sta)]);
}

} // verus!
