//! Serial framing and classic PCAP records (radiotap and BTLE RF headers).
use vstd::prelude::*;
use crate::error::Error;
use crate::types::SNAPLEN;

verus! {

pub const FRAME_MAGIC: [u8; 2] = [0xa5, 0x5a];
pub const TYPE_GLOBAL: u8 = 0;
pub const TYPE_WIFI: u8 = 1;
pub const TYPE_BLE: u8 = 2;
pub const DLT_IEEE802_11_RADIO: u32 = 127;
pub const DLT_BLUETOOTH_LE_LL_WITH_PHDR: u32 = 256;
pub const RADIOTAP_LEN: usize = 23;
pub const BTLE_RF_LEN: usize = 10;
pub const PCAP_RECORD_LEN: usize = 16;
pub const ADV_AA: u32 = 0x8e89_bed6;
pub const PCAP_MAGIC: u32 = 0xa1b2_c3d4;

/// One record of the framed serial stream.
#[derive(Debug, Clone, PartialEq, Eq)]
pub struct SerialFrame {
    pub typ: u8,
    pub payload: Vec<u8>,
}

/// Little-endian bytes of a 16-bit value.
pub open spec fn le16(x: u16) -> Seq<u8> {
    seq![(x % 256) as u8, (x / 256) as u8]
}

/// Big-endian bytes of a 16-bit value.
pub open spec fn be16(x: u16) -> Seq<u8> {
    seq![(x / 256) as u8, (x % 256) as u8]
}

/// Little-endian bytes of a 32-bit value.
pub open spec fn le32(x: u32) -> Seq<u8> {
    seq![
        (x % 256) as u8,
        (x / 0x100 % 256) as u8,
        (x / 0x1_0000 % 256) as u8,
        (x / 0x100_0000) as u8,
    ]
}

/// Little-endian bytes of a 64-bit value.
pub open spec fn le64(x: u64) -> Seq<u8> {
    le32((x % 0x1_0000_0000) as u32) + le32((x / 0x1_0000_0000) as u32)
}

/// The 32-bit value of four little-endian bytes.
pub open spec fn u32_le(b: Seq<u8>) -> u32 {
    (b[0] + 0x100 * b[1] + 0x1_0000 * b[2] + 0x100_0000 * b[3]) as u32
}

pub fn push_le16(v: &mut Vec<u8>, x: u16)
    ensures
        final(v)@ == old(v)@ + le16(x),
{
    v.push((x % 256) as u8);
    v.push((x / 256) as u8);
    assert(v@ =~= old(v)@ + le16(x));
}

pub fn push_le32(v: &mut Vec<u8>, x: u32)
    ensures
        final(v)@ == old(v)@ + le32(x),
{
    v.push((x % 256) as u8);
    v.push((x / 0x100 % 256) as u8);
    v.push((x / 0x1_0000 % 256) as u8);
    v.push((x / 0x100_0000) as u8);
    assert(v@ =~= old(v)@ + le32(x));
}

pub fn push_le64(v: &mut Vec<u8>, x: u64)
    ensures
        final(v)@ == old(v)@ + le64(x),
{
    push_le32(v, (x % 0x1_0000_0000) as u32);
    push_le32(v, (x / 0x1_0000_0000) as u32);
    assert(v@ =~= old(v)@ + le64(x));
}

/// Appends all bytes of `s`.
pub fn push_bytes(v: &mut Vec<u8>, s: &[u8])
    ensures
        final(v)@ == old(v)@ + s@,
{
    let ghost start = v@;
    let mut i: usize = 0;
    while i < s.len()
        invariant
            i <= s.len(),
            v@ == start + s@.take(i as int),
        decreases s.len() - i,
    {
        v.push(s[i]);
        i += 1;
        assert(s@.take(i as int) == s@.take(i - 1).push(s@[i - 1]));
        assert(v@ =~= start + s@.take(i as int));
    }
    assert(s@.take(s.len() as int) == s@);
}

/// `A5 5A | type | length (u16, big-endian) | payload`; the length field holds
/// the payload length modulo 2^16.
pub open spec fn frame_bytes(typ: u8, payload: Seq<u8>) -> Seq<u8> {
    seq![0xa5u8, 0x5au8, typ] + be16((payload.len() % 0x1_0000) as u16) + payload
}

pub fn encode_frame(typ: u8, payload: &[u8]) -> (out: Vec<u8>)
    ensures
        out@ == frame_bytes(typ, payload@),
{
    let len = (payload.len() % 0x1_0000) as u16;
    let mut out: Vec<u8> = Vec::new();
    out.push(FRAME_MAGIC[0]);
    out.push(FRAME_MAGIC[1]);
    out.push(typ);
    out.push((len / 256) as u8);
    out.push((len % 256) as u8);
    push_bytes(&mut out, payload);
    assert(out@ =~= frame_bytes(typ, payload@));
    out
}

/// Decoding from position `i`: bytes that do not start a frame magic are
/// skipped one at a time; decoding stops at the first frame whose header or
/// payload is not complete yet. The result is the frames, as (type, payload),
/// and the position decoding stopped at.
pub open spec fn decode_from(buf: Seq<u8>, i: int) -> (Seq<(u8, Seq<u8>)>, int)
    decreases buf.len() - i,
{
    if i < 0 || i + 5 > buf.len() {
        (Seq::empty(), i)
    } else if buf[i] != 0xa5 || buf[i + 1] != 0x5a {
        decode_from(buf, i + 1)
    } else {
        let len = buf[i + 3] * 256 + buf[i + 4];
        if i + 5 + len > buf.len() {
            (Seq::empty(), i)
        } else {
            let rest = decode_from(buf, i + 5 + len);
            (seq![(buf[i + 2], buf.subrange(i + 5, i + 5 + len))] + rest.0, rest.1)
        }
    }
}

/// Frames as (type, payload) pairs.
pub open spec fn frames_view(v: Seq<SerialFrame>) -> Seq<(u8, Seq<u8>)> {
    v.map_values(|f: SerialFrame| (f.typ, f.payload@))
}

/// Splits a framed byte stream into the complete frames it holds and the
/// number of bytes they (and any skipped noise) take up.
pub fn decode_frames(buf: &[u8]) -> (r: (Vec<SerialFrame>, usize))
    ensures
        frames_view(r.0@) == decode_from(buf@, 0).0,
        r.1 == decode_from(buf@, 0).1,
        r.1 <= buf.len(),
{
    let mut frames: Vec<SerialFrame> = Vec::new();
    let mut i: usize = 0;
    while buf.len() - i >= 5
        invariant_except_break
            i <= buf.len(),
            decode_from(buf@, 0) == (frames_view(frames@) + decode_from(buf@, i as int).0, decode_from(buf@, i as int).1),
        ensures
            i <= buf.len(),
            decode_from(buf@, 0) == (frames_view(frames@), i as int),
        decreases buf.len() - i,
    {
        if buf[i] != FRAME_MAGIC[0] {
            i += 1;
            continue;
        }
        if buf[i + 1] != FRAME_MAGIC[1] {
            i += 1;
            continue;
        }
        let typ = buf[i + 2];
        let len = (buf[i + 3] as usize) * 256 + (buf[i + 4] as usize);
        if len > buf.len() - i - 5 {
            assert(frames_view(frames@) + Seq::<(u8, Seq<u8>)>::empty() == frames_view(frames@));
            break;
        }
        let mut payload: Vec<u8> = Vec::new();
        push_bytes(&mut payload, &buf[i + 5..i + 5 + len]);
        let ghost old_frames = frames@;
        frames.push(SerialFrame { typ, payload });
        assert(frames_view(frames@) == frames_view(old_frames).push((typ, buf@.subrange(i + 5, i + 5 + len))));
        assert(frames_view(frames@) + decode_from(buf@, i + 5 + len).0 =~= frames_view(old_frames) + (
        seq![(typ, buf@.subrange(i + 5, i + 5 + len))] + decode_from(buf@, i + 5 + len).0));
        i = i + 5 + len;
    }
    (frames, i)
}

proof fn lemma_decode_shift(a: Seq<u8>, b: Seq<u8>, j: int)
    requires
        0 <= j,
    ensures
        decode_from(a + b, a.len() + j) == (decode_from(b, j).0, a.len() + decode_from(b, j).1),
    decreases b.len() - j,
{
    let ab = a + b;
    let i = a.len() + j;
    if j + 5 > b.len() {
    } else {
        assert(ab[i] == b[j]);
        assert(ab[i + 1] == b[j + 1]);
        assert(ab[i + 2] == b[j + 2]);
        assert(ab[i + 3] == b[j + 3]);
        assert(ab[i + 4] == b[j + 4]);
        if b[j] != 0xa5 || b[j + 1] != 0x5a {
            lemma_decode_shift(a, b, j + 1);
        } else {
            let len = b[j + 3] * 256 + b[j + 4];
            if j + 5 + len <= b.len() {
                lemma_decode_shift(a, b, j + 5 + len);
                assert(ab.subrange(i + 5, i + 5 + len) == b.subrange(j + 5, j + 5 + len));
            }
        }
    }
}

/// Framing round trip: a frame whose payload fits the 16-bit length field,
/// followed by any bytes, decodes to that frame followed by whatever those
/// bytes decode to.
pub proof fn lemma_frame_round_trip(typ: u8, payload: Seq<u8>, rest: Seq<u8>)
    requires
        payload.len() <= 0xffff,
    ensures
        decode_from(frame_bytes(typ, payload) + rest, 0) == (
            seq![(typ, payload)] + decode_from(rest, 0).0,
            frame_bytes(typ, payload).len() + decode_from(rest, 0).1,
        ),
{
    let f = frame_bytes(typ, payload);
    let buf = f + rest;
    let len = payload.len() as int;
    assert(buf[0] == 0xa5 && buf[1] == 0x5a && buf[2] == typ);
    assert(buf[3] * 256 + buf[4] == len);
    assert(buf.subrange(5, 5 + len) =~= payload);
    lemma_decode_shift(f, rest, 0);
}

/// The classic PCAP global header: magic, version 2.4, snap length, link type.
pub open spec fn global_header_bytes(dlt: u32) -> Seq<u8> {
    le32(PCAP_MAGIC) + le16(2) + le16(4) + seq![0u8, 0, 0, 0, 0, 0, 0, 0] + le32(SNAPLEN) + le32(dlt)
}

pub fn pcap_global_header(dlt: u32) -> (h: [u8; 24])
    ensures
        h@ == global_header_bytes(dlt),
{
    let mut v: Vec<u8> = Vec::new();
    push_le32(&mut v, PCAP_MAGIC);
    push_le16(&mut v, 2);
    push_le16(&mut v, 4);
    push_le32(&mut v, 0);
    push_le32(&mut v, 0);
    push_le32(&mut v, SNAPLEN);
    push_le32(&mut v, dlt);
    assert(v@ =~= global_header_bytes(dlt));
    let h = [
        v[0], v[1], v[2], v[3], v[4], v[5], v[6], v[7], v[8], v[9], v[10], v[11], v[12], v[13],
        v[14], v[15], v[16], v[17], v[18], v[19], v[20], v[21], v[22], v[23],
    ];
    assert(h@ =~= v@);
    h
}

/// A PCAP record header (seconds, microseconds, captured and original length)
/// followed by the packet.
pub open spec fn record_bytes(ts_ms: u64, packet: Seq<u8>) -> Seq<u8> {
    le32((ts_ms / 1000) as u32) + le32(((ts_ms % 1000) * 1000) as u32) + le32(packet.len() as u32)
        + le32(packet.len() as u32) + packet
}

pub fn pcap_record(ts_ms: u64, packet: &[u8]) -> (rec: Vec<u8>)
    ensures
        rec@ == record_bytes(ts_ms, packet@),
{
    let mut rec: Vec<u8> = Vec::new();
    let sec = (ts_ms / 1000) as u32;
    let usec = ((ts_ms % 1000) * 1000) as u32;
    push_le32(&mut rec, sec);
    push_le32(&mut rec, usec);
    push_le32(&mut rec, packet.len() as u32);
    push_le32(&mut rec, packet.len() as u32);
    push_bytes(&mut rec, packet);
    assert(rec@ =~= record_bytes(ts_ms, packet@));
    rec
}

/// The 23-byte radiotap header: TSFT, Flags (FCS present), Rate, Channel
/// (frequency and 2.4/5 GHz flags) and dBm antenna signal.
pub open spec fn radiotap_bytes(ts_ms: u64, freq_mhz: u16, is_5ghz: bool, rssi: i8, rate: u8) -> Seq<u8> {
    seq![0u8, 0, 23, 0] + le32(0x2f) + le64((ts_ms * 1000) as u64) + seq![0x10u8, rate] + le16(freq_mhz)
        + le16(if is_5ghz { 0x0140u16 } else { 0x00c0u16 }) + seq![rssi as u8]
}

pub fn radiotap(ts_ms: u64, freq_mhz: u16, is_5ghz: bool, rssi: i8, rate: u8) -> (r: [u8; RADIOTAP_LEN])
    requires
        ts_ms <= u64::MAX / 1000,
    ensures
        r@ == radiotap_bytes(ts_ms, freq_mhz, is_5ghz, rssi, rate),
{
    let mut v: Vec<u8> = Vec::new();
    v.push(0);
    v.push(0);
    v.push(RADIOTAP_LEN as u8);
    v.push(0);
    assert(v@ =~= seq![0u8, 0, 23, 0]);
    push_le32(&mut v, 0x002f);
    push_le64(&mut v, ts_ms * 1000);
    let ghost p1 = v@;
    assert(p1 == seq![0u8, 0, 23, 0] + le32(0x2f) + le64((ts_ms * 1000) as u64));
    v.push(0x10);
    v.push(rate);
    assert(v@ =~= p1 + seq![0x10u8, rate]);
    push_le16(&mut v, freq_mhz);
    let chan_flags: u16 = if is_5ghz {
        0x0140
    } else {
        0x00c0
    };
    push_le16(&mut v, chan_flags);
    let ghost p2 = v@;
    assert(p2 == p1 + seq![0x10u8, rate] + le16(freq_mhz) + le16(chan_flags));
    v.push(rssi as u8);
    assert(v@ =~= p2 + seq![rssi as u8]);
    assert(v@ == radiotap_bytes(ts_ms, freq_mhz, is_5ghz, rssi, rate));
    assert(v@.len() == 23);
    let r = [
        v[0], v[1], v[2], v[3], v[4], v[5], v[6], v[7], v[8], v[9], v[10], v[11], v[12], v[13],
        v[14], v[15], v[16], v[17], v[18], v[19], v[20], v[21], v[22],
    ];
    assert(r@ =~= v@);
    r
}

/// A WiFi PCAP record: radiotap header then the 802.11 MPDU.
pub fn wifi_pcap_payload(ts_ms: u64, freq_mhz: u16, is_5ghz: bool, rssi: i8, rate: u8, mpdu: &[u8]) -> (rec: Vec<u8>)
    requires
        ts_ms <= u64::MAX / 1000,
    ensures
        rec@ == record_bytes(ts_ms, radiotap_bytes(ts_ms, freq_mhz, is_5ghz, rssi, rate) + mpdu@),
{
    let rt = radiotap(ts_ms, freq_mhz, is_5ghz, rssi, rate);
    let mut pkt: Vec<u8> = Vec::new();
    push_bytes(&mut pkt, &rt);
    push_bytes(&mut pkt, mpdu);
    assert(pkt@ =~= radiotap_bytes(ts_ms, freq_mhz, is_5ghz, rssi, rate) + mpdu@);
    pcap_record(ts_ms, pkt.as_slice())
}

/// The 10-byte BTLE RF header: RF channel, signal, noise, reserved, the
/// advertising access address and flags (signal valid, channel valid).
pub open spec fn btle_rf_bytes(rssi: i8, channel: u8) -> Seq<u8> {
    seq![channel, rssi as u8, 0u8, 0u8] + le32(ADV_AA) + le16(3)
}

pub fn btle_rf_phdr(rssi: i8, channel: u8) -> (p: [u8; BTLE_RF_LEN])
    ensures
        p@ == btle_rf_bytes(rssi, channel),
{
    let mut v: Vec<u8> = Vec::new();
    v.push(channel);
    v.push(rssi as u8);
    v.push(0);
    v.push(0);
    push_le32(&mut v, ADV_AA);
    push_le16(&mut v, 0x0003);
    assert(v@ =~= btle_rf_bytes(rssi, channel));
    let p = [v[0], v[1], v[2], v[3], v[4], v[5], v[6], v[7], v[8], v[9]];
    assert(p@ =~= v@);
    p
}

/// An ADV_IND PDU: header (TxAdd bit for a random address, length of address
/// plus data modulo 256), advertiser address, advertising data.
pub open spec fn adv_pdu_bytes(addr: Seq<u8>, addr_random: bool, adv_data: Seq<u8>) -> Seq<u8> {
    seq![if addr_random { 0x40u8 } else { 0u8 }, ((6 + adv_data.len()) % 256) as u8] + addr + adv_data
}

pub fn reconstruct_adv_pdu(addr: &[u8; 6], addr_random: bool, adv_data: &[u8]) -> (pdu: Vec<u8>)
    ensures
        pdu@ == adv_pdu_bytes(addr@, addr_random, adv_data@),
{
    let mut pdu: Vec<u8> = Vec::new();
    pdu.push(if addr_random { 0x40 } else { 0 });
    pdu.push(((adv_data.len() % 256 + 6) % 256) as u8);
    push_bytes(&mut pdu, addr);
    push_bytes(&mut pdu, adv_data);
    assert(pdu@ =~= adv_pdu_bytes(addr@, addr_random, adv_data@));
    pdu
}

/// A BLE PCAP record: BTLE RF header then the rebuilt advertising PDU.
pub fn ble_pcap_payload(ts_ms: u64, rssi: i8, rf_channel: u8, addr: &[u8; 6], addr_random: bool, adv_data: &[u8]) -> (rec: Vec<u8>)
    ensures
        rec@ == record_bytes(ts_ms, btle_rf_bytes(rssi, rf_channel) + adv_pdu_bytes(addr@, addr_random, adv_data@)),
{
    let phdr = btle_rf_phdr(rssi, rf_channel);
    let pdu = reconstruct_adv_pdu(addr, addr_random, adv_data);
    let mut pkt: Vec<u8> = Vec::new();
    push_bytes(&mut pkt, &phdr);
    push_bytes(&mut pkt, pdu.as_slice());
    pcap_record(ts_ms, pkt.as_slice())
}

fn read_u32_le(bytes: &[u8], off: usize) -> (x: u32)
    requires
        off + 4 <= bytes.len(),
    ensures
        x == u32_le(bytes@.subrange(off as int, off + 4)),
{
    (bytes[off] as u32) + 0x100 * (bytes[off + 1] as u32) + 0x1_0000 * (bytes[off + 2] as u32) + 0x100_0000 * (bytes[off + 3] as u32)
}

/// Reads the link type of a PCAP global header.
pub fn parse_global_header(bytes: &[u8]) -> (r: Result<u32, Error>)
    ensures
        bytes@.len() != 24 ==> r == Err::<u32, Error>(Error::TruncatedFrame),
        bytes@.len() == 24 && u32_le(bytes@.subrange(0, 4)) != PCAP_MAGIC ==> r == Err::<u32, Error>(Error::BadMagic),
        bytes@.len() == 24 && u32_le(bytes@.subrange(0, 4)) == PCAP_MAGIC ==> r == Ok::<u32, Error>(u32_le(bytes@.subrange(20, 24))),
{
    if bytes.len() != 24 {
        return Err(Error::TruncatedFrame);
    }
    let magic = read_u32_le(bytes, 0);
    if magic != PCAP_MAGIC {
        return Err(Error::BadMagic);
    }
    Ok(read_u32_le(bytes, 20))
}

proof fn lemma_le32_value(x: u32)
    ensures
        u32_le(le32(x)) == x,
{
    let b0 = (x % 256) as u8;
    let b1 = (x / 0x100 % 256) as u8;
    let b2 = (x / 0x1_0000 % 256) as u8;
    let b3 = (x / 0x100_0000) as u8;
    assert(b0 + 0x100 * b1 + 0x1_0000 * b2 + 0x100_0000 * b3 == x) by (nonlinear_arith)
        requires
            b0 == x % 256,
            b1 == x / 0x100 % 256,
            b2 == x / 0x1_0000 % 256,
            b3 == x / 0x100_0000,
    ;
}

/// The header written for a link type reads back as that link type.
pub proof fn lemma_global_header_round_trip(dlt: u32)
    ensures
        global_header_bytes(dlt).len() == 24,
        u32_le(global_header_bytes(dlt).subrange(0, 4)) == PCAP_MAGIC,
        u32_le(global_header_bytes(dlt).subrange(20, 24)) == dlt,
{
    let h = global_header_bytes(dlt);
    assert(h.subrange(0, 4) =~= le32(PCAP_MAGIC));
    assert(h.subrange(20, 24) =~= le32(dlt));
    lemma_le32_value(PCAP_MAGIC);
    lemma_le32_value(dlt);
}

} // verus!
