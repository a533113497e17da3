//! Radio, band and hop configuration types.
use vstd::prelude::*;
use crate::error::Error;
use crate::text::{
    all_hex, chars_of, hex_char, hex_char_exec, hex_number, is_white, owned, parse_radix16_u16, push_char, radix16_u16,
    trim_chars, trim_end_index, trim_start_index, trimmed,
};
use crate::mac::lemma_hex_char_value;
use vstd::slice::slice_to_vec;

verus! {

pub const DEFAULT_HOPMASK: u16 = 0x0421;
pub const DEFAULT_DWELL_MS: u16 = 300;
pub const MIN_DWELL_MS: u16 = 100;
pub const MAX_DWELL_MS: u16 = 2000;
pub const SNAPLEN: u32 = 2500;
pub const DEFAULT_CHANNELS_5GHZ: [u8; 4] = [36, 40, 44, 48];
pub const FLOCKYOU_2G_CHANNELS: [u8; 3] = [11, 6, 1];

#[derive(Debug, Clone, Copy, PartialEq, Eq, Structural)]
pub enum Chip {
    Esp32s3,
    Esp32c5,
}

impl Chip {
    /// Bands the chip reports in `status`: 2.4 GHz only on the S3, 2.4 and 5 GHz on the C5.
    pub fn wifi_bands(self) -> (r: &'static [&'static str])
        ensures
            self == Chip::Esp32s3 ==> r@.len() == 1 && r@[0]@ == "2.4"@,
            self == Chip::Esp32c5 ==> r@.len() == 2 && r@[0]@ == "2.4"@ && r@[1]@ == "5"@,
    {
        match self {
            Chip::Esp32s3 => &["2.4"],
            Chip::Esp32c5 => &["2.4", "5"],
        }
    }

    /// Only the C5 has a 5 GHz radio.
    #[verifier::when_used_as_spec(spec_supports_5ghz)]
    pub fn supports_5ghz(self) -> (b: bool)
        ensures
            b == (self == Chip::Esp32c5),
    {
        matches!(self, Chip::Esp32c5)
    }

    pub open spec fn spec_supports_5ghz(self) -> bool {
        self == Chip::Esp32c5
    }
}

#[derive(Debug, Clone, Copy, PartialEq, Eq, Structural)]
pub enum Radio {
    Wifi,
    Ble,
    Both,
    Off,
}

#[derive(Debug, Clone, Copy, PartialEq, Eq, Structural)]
pub enum Mode {
    Discovery,
    Capture,
}

#[derive(Debug, Clone, Copy, PartialEq, Eq, Structural)]
pub enum OutputFormat {
    Json,
    Pcap,
}

#[derive(Debug, Clone, Copy, PartialEq, Eq, Structural)]
pub enum WifiBand {
    TwoG,
    FiveG,
    Both,
}

impl WifiBand {
    #[verifier::when_used_as_spec(spec_uses_2g)]
    pub fn uses_2g(self) -> (b: bool)
        ensures
            b == (self != WifiBand::FiveG),
    {
        !matches!(self, WifiBand::FiveG)
    }

    #[verifier::when_used_as_spec(spec_uses_5g)]
    pub fn uses_5g(self) -> (b: bool)
        ensures
            b == (self != WifiBand::TwoG),
    {
        !matches!(self, WifiBand::TwoG)
    }

    pub open spec fn spec_uses_2g(self) -> bool {
        self != WifiBand::FiveG
    }

    pub open spec fn spec_uses_5g(self) -> bool {
        self != WifiBand::TwoG
    }
}

#[derive(Debug, Clone, Copy, PartialEq, Eq, Structural)]
pub enum WifiType {
    Mgmt,
    Ctrl,
    Data,
}

#[derive(Debug, Clone, Copy, PartialEq, Eq, Structural)]
pub struct HopChannel {
    pub channel: u8,
    pub freq_mhz: u16,
    pub is_5ghz: bool,
}

/// Centre frequency: `5000 + 5 ch` on 5 GHz, `2407 + 5 ch` on 2.4 GHz, 2484 for channel 14.
pub open spec fn spec_freq_mhz(channel: u8, is_5ghz: bool) -> u16 {
    if is_5ghz {
        (5000 + 5 * channel) as u16
    } else if channel == 14 {
        2484
    } else {
        (2407 + 5 * channel) as u16
    }
}

pub fn freq_mhz(channel: u8, is_5ghz: bool) -> (f: u16)
    ensures
        f == spec_freq_mhz(channel, is_5ghz),
        is_5ghz ==> f == 5000 + 5 * channel,
        !is_5ghz && channel != 14 ==> f == 2407 + 5 * channel,
{
    if is_5ghz {
        5000 + 5 * (channel as u16)
    } else if channel == 14 {
        2484
    } else {
        2407 + 5 * (channel as u16)
    }
}

/// The digits of a hop mask: trimmed, then without a `0x`/`0X` prefix.
pub open spec fn hopmask_digits(s: Seq<char>) -> Seq<char> {
    let t = trimmed(s);
    if t.len() >= 2 && t[0] == '0' && (t[1] == 'x' || t[1] == 'X') {
        t.skip(2)
    } else {
        t
    }
}

/// Parses a hop mask written in hex, with an optional `0x`/`0X` prefix and
/// surrounding white space.
pub fn parse_hopmask(s: &str) -> (r: Result<u16, Error>)
    ensures
        radix16_u16(hopmask_digits(s@)) matches Some(v) ==> r == Ok::<u16, Error>(v),
        radix16_u16(hopmask_digits(s@)) is None ==> (r matches Err(Error::Hopmask(m)) && m@
            == s@),
{
    let cs = chars_of(s);
    let t = trim_chars(&cs);
    let mut digits: Vec<char> = Vec::new();
    let mut i: usize = 0;
    if t.len() >= 2 && t[0] == '0' && (t[1] == 'x' || t[1] == 'X') {
        i = 2;
    }
    let start = i;
    while i < t.len()
        invariant
            start <= i <= t.len(),
            digits@ == t@.subrange(start as int, i as int),
        decreases t.len() - i,
    {
        digits.push(t[i]);
        i += 1;
    }
    assert(digits@ == hopmask_digits(s@));
    match parse_radix16_u16(digits.as_slice()) {
        Some(v) => Ok(v),
        None => Err(Error::Hopmask(owned(s))),
    }
}

/// The four lower-case hex digits of a 16-bit value.
pub open spec fn hex4(mask: u16) -> Seq<char> {
    seq![
        hex_char((mask / 4096) as nat),
        hex_char((mask / 256 % 16) as nat),
        hex_char((mask / 16 % 16) as nat),
        hex_char((mask % 16) as nat),
    ]
}

/// `0x` and four lower-case hex digits.
pub open spec fn hopmask_text(mask: u16) -> Seq<char> {
    "0x"@ + hex4(mask)
}

pub fn format_hopmask(mask: u16) -> (s: String)
    ensures
        s@ == hopmask_text(mask),
{
    let mut s = owned("0x");
    push_char(&mut s, hex_char_exec((mask / 4096) as u8));
    push_char(&mut s, hex_char_exec((mask / 256 % 16) as u8));
    push_char(&mut s, hex_char_exec((mask / 16 % 16) as u8));
    push_char(&mut s, hex_char_exec((mask % 16) as u8));
    proof {
        reveal_strlit("0x");
    }
    assert(s@ =~= hopmask_text(mask));
    s
}

/// Bit `ch - 1` of the mask stands for 2.4 GHz channel `ch`.
pub open spec fn mask_has_channel(mask: u16, ch: u8) -> bool {
    mask & (1u16 << ((ch - 1) as u16)) != 0
}

/// The channels among `1..=n` whose bit is set, in ascending order.
pub open spec fn mask_channels(mask: u16, n: nat) -> Seq<u8>
    decreases n,
{
    if n == 0 {
        Seq::empty()
    } else if mask_has_channel(mask, n as u8) {
        mask_channels(mask, (n - 1) as nat).push(n as u8)
    } else {
        mask_channels(mask, (n - 1) as nat)
    }
}

/// A mask is valid when it uses only the 14 channel bits.
pub open spec fn mask_is_valid(mask: u16) -> bool {
    mask <= 0x3fff
}

pub fn channels_from_hopmask(mask: u16) -> (r: Result<Vec<u8>, Error>)
    ensures
        mask_is_valid(mask) ==> (r matches Ok(v) && v@ == mask_channels(mask, 14)),
        !mask_is_valid(mask) ==> (r matches Err(Error::Hopmask(m)) && m@ == hopmask_text(mask)),
{
    assert((mask & !0x3fffu16 != 0) == (mask > 0x3fff)) by (bit_vector);
    if mask & !0x3fff != 0 {
        return Err(Error::Hopmask(format_hopmask(mask)));
    }
    let mut out: Vec<u8> = Vec::new();
    let mut ch: u8 = 1;
    while ch <= 14
        invariant
            1 <= ch <= 15,
            out@ == mask_channels(mask, (ch - 1) as nat),
        decreases 15 - ch,
    {
        let bit: u16 = 1u16 << ((ch - 1) as u16);
        if mask & bit != 0 {
            out.push(ch);
        }
        ch += 1;
    }
    Ok(out)
}

/// The channels a band hops on the 2.4 GHz side.
pub open spec fn band_channels_2g(band: WifiBand, mask: u16) -> Seq<u8> {
    if band.spec_uses_2g() {
        mask_channels(mask, 14)
    } else {
        Seq::empty()
    }
}

/// The channels a band hops on the 5 GHz side; an empty list means UNII-1.
pub open spec fn band_channels_5g(band: WifiBand, chs: Seq<u8>) -> Seq<u8> {
    if band.spec_uses_5g() {
        if chs.len() == 0 {
            DEFAULT_CHANNELS_5GHZ@
        } else {
            chs
        }
    } else {
        Seq::empty()
    }
}

pub open spec fn hop_of(ch: u8, is_5ghz: bool) -> HopChannel {
    HopChannel { channel: ch, freq_mhz: spec_freq_mhz(ch, is_5ghz), is_5ghz }
}

pub open spec fn hops(chs: Seq<u8>, is_5ghz: bool) -> Seq<HopChannel> {
    chs.map_values(|c: u8| hop_of(c, is_5ghz))
}

/// Round `k` of the hop order holds the `k`-th 2.4 GHz channel, then the
/// `k`-th 5 GHz channel, each when there is one; this is the first `n` rounds.
pub open spec fn hop_rounds(a: Seq<HopChannel>, b: Seq<HopChannel>, n: nat) -> Seq<HopChannel>
    decreases n,
{
    if n == 0 {
        Seq::empty()
    } else {
        let k = n - 1;
        let prev = hop_rounds(a, b, k as nat);
        let with_a = if k < a.len() {
            prev.push(a[k])
        } else {
            prev
        };
        if k < b.len() {
            with_a.push(b[k])
        } else {
            with_a
        }
    }
}

/// The whole hop order: rounds until both channel lists are used up.
pub open spec fn hop_order(a: Seq<HopChannel>, b: Seq<HopChannel>) -> Seq<HopChannel> {
    hop_rounds(a, b, if a.len() >= b.len() { a.len() } else { b.len() })
}

/// The sequence the hop task cycles through: empty when the hop mask is
/// invalid for a band that uses 2.4 GHz.
pub open spec fn hop_plan(band: WifiBand, mask: u16, chs: Seq<u8>) -> Seq<HopChannel> {
    if band.spec_uses_2g() && !mask_is_valid(mask) {
        Seq::empty()
    } else {
        hop_order(hops(band_channels_2g(band, mask), false), hops(band_channels_5g(band, chs), true))
    }
}

/// The channel sequence the hop task cycles through.
pub fn hop_sequence(band: WifiBand, hopmask: u16, channels_5ghz: &[u8]) -> (r: Result<
    Vec<HopChannel>,
    Error,
>)
    ensures
        band.uses_2g() && !mask_is_valid(hopmask) ==> (r matches Err(Error::Hopmask(m)) && m@
            == hopmask_text(hopmask)),
        !(band.uses_2g() && !mask_is_valid(hopmask)) && band_channels_2g(band, hopmask).len() == 0
            && band_channels_5g(band, channels_5ghz@).len() == 0 ==> (r matches Err(
            Error::Config(m),
        ) && m@ == "hop sequence is empty"@),
        !(band.uses_2g() && !mask_is_valid(hopmask)) && (band_channels_2g(band, hopmask).len() > 0
            || band_channels_5g(band, channels_5ghz@).len() > 0) ==> (r matches Ok(v) && v@
            == hop_order(
            hops(band_channels_2g(band, hopmask), false),
            hops(band_channels_5g(band, channels_5ghz@), true),
        )),
        r matches Ok(v) ==> v@ == hop_plan(band, hopmask, channels_5ghz@),
        r is Err ==> hop_plan(band, hopmask, channels_5ghz@).len() == 0,
{
    let ch2: Vec<u8> = if band.uses_2g() {
        match channels_from_hopmask(hopmask) {
            Ok(v) => v,
            Err(e) => return Err(e),
        }
    } else {
        Vec::new()
    };
    let ch5: Vec<u8> = if band.uses_5g() {
        if channels_5ghz.len() == 0 {
            slice_to_vec(&DEFAULT_CHANNELS_5GHZ)
        } else {
            slice_to_vec(channels_5ghz)
        }
    } else {
        Vec::new()
    };
    assert(ch2@ == band_channels_2g(band, hopmask));
    assert(ch5@ == band_channels_5g(band, channels_5ghz@));
    if ch2.len() == 0 && ch5.len() == 0 {
        assert(hop_rounds(hops(ch2@, false), hops(ch5@, true), 0) == Seq::<HopChannel>::empty());
        return Err(Error::config("hop sequence is empty"));
    }
    let ghost a = hops(ch2@, false);
    let ghost b = hops(ch5@, true);
    let n = if ch2.len() >= ch5.len() {
        ch2.len()
    } else {
        ch5.len()
    };
    let mut seq: Vec<HopChannel> = Vec::new();
    let mut i: usize = 0;
    while i < n
        invariant
            i <= n,
            n == (if a.len() >= b.len() { a.len() } else { b.len() }),
            a == hops(ch2@, false),
            b == hops(ch5@, true),
            seq@ == hop_rounds(a, b, i as nat),
        decreases n - i,
    {
        if i < ch2.len() {
            seq.push(HopChannel { channel: ch2[i], freq_mhz: freq_mhz(ch2[i], false), is_5ghz: false });
        }
        if i < ch5.len() {
            seq.push(HopChannel { channel: ch5[i], freq_mhz: freq_mhz(ch5[i], true), is_5ghz: true });
        }
        i += 1;
    }
    Ok(seq)
}

/// A hop mask printed by `format_hopmask` parses back (by `parse_hopmask`)
/// to the same mask.
pub proof fn lemma_hopmask_text_round_trip(mask: u16)
    ensures
        radix16_u16(hopmask_digits(hopmask_text(mask))) == Some(mask),
{
    let d0 = (mask / 4096) as nat;
    let d1 = (mask / 256 % 16) as nat;
    let d2 = (mask / 16 % 16) as nat;
    let d3 = (mask % 16) as nat;
    lemma_hex_char_value(d0);
    lemma_hex_char_value(d1);
    lemma_hex_char_value(d2);
    lemma_hex_char_value(d3);
    let h = hex4(mask);
    let t = hopmask_text(mask);
    reveal_strlit("0x");
    assert(t =~= seq!['0', 'x', hex_char(d0), hex_char(d1), hex_char(d2), hex_char(d3)]);
    assert(!is_white(t[0]));
    let c = hex_char(d3);
    assert(!is_white(c)) by {
        if d3 < 10 {
            assert(c as u32 == '0' as u32 + d3);
        } else {
            assert(c as u32 == 'a' as u32 + d3 - 10);
        }
    }
    assert(trim_start_index(t) == 0);
    assert(trim_end_index(t) == 6);
    assert(trimmed(t) =~= t);
    assert(hopmask_digits(t) =~= h);
    assert(h[0] != '+');
    assert(all_hex(h));
    let s1 = h.drop_last().drop_last().drop_last();
    let s2 = h.drop_last().drop_last();
    let s3 = h.drop_last();
    assert(s1 =~= seq![h[0]]);
    assert(s1.drop_last() =~= Seq::<char>::empty());
    assert(hex_number(s1.drop_last()) == 0);
    assert(hex_number(s1) == d0);
    assert(hex_number(s2) == d0 * 16 + d1);
    assert(hex_number(s3) == (d0 * 16 + d1) * 16 + d2);
    assert(hex_number(h) == ((d0 * 16 + d1) * 16 + d2) * 16 + d3);
    assert(((d0 * 16 + d1) * 16 + d2) * 16 + d3 == mask as nat) by (nonlinear_arith)
        requires
            d0 == (mask / 4096) as nat,
            d1 == (mask / 256 % 16) as nat,
            d2 == (mask / 16 % 16) as nat,
            d3 == (mask % 16) as nat,
    ;
}

pub open spec fn min_nat(x: nat, y: nat) -> nat {
    if x <= y { x } else { y }
}

proof fn lemma_hop_rounds_cover(a: Seq<HopChannel>, b: Seq<HopChannel>, n: nat)
    ensures
        hop_rounds(a, b, n).len() == min_nat(n, a.len()) + min_nat(n, b.len()),
        forall|k: int| #![trigger a[k]] 0 <= k < min_nat(n, a.len()) ==> exists|j: int|
            0 <= j < hop_rounds(a, b, n).len() && #[trigger] hop_rounds(a, b, n)[j] == a[k],
        forall|k: int| #![trigger b[k]] 0 <= k < min_nat(n, b.len()) ==> exists|j: int|
            0 <= j < hop_rounds(a, b, n).len() && #[trigger] hop_rounds(a, b, n)[j] == b[k],
    decreases n,
{
    if n > 0 {
        let m = (n - 1) as nat;
        lemma_hop_rounds_cover(a, b, m);
        let prev = hop_rounds(a, b, m);
        let with_a = if m < a.len() { prev.push(a[m as int]) } else { prev };
        let r = hop_rounds(a, b, n);
        assert(r == if m < b.len() { with_a.push(b[m as int]) } else { with_a });
        assert forall|j: int| 0 <= j < prev.len() implies r[j] == prev[j] by {}
        assert forall|k: int| #![trigger a[k]] 0 <= k < min_nat(n, a.len()) implies exists|j: int|
            0 <= j < r.len() && #[trigger] r[j] == a[k] by {
            if k < m {
                let j = choose|j: int| 0 <= j < prev.len() && prev[j] == a[k];
                assert(r[j] == a[k]);
            } else {
                assert(r[prev.len() as int] == a[k]);
            }
        }
        assert forall|k: int| #![trigger b[k]] 0 <= k < min_nat(n, b.len()) implies exists|j: int|
            0 <= j < r.len() && #[trigger] r[j] == b[k] by {
            if k < m {
                let j = choose|j: int| 0 <= j < prev.len() && prev[j] == b[k];
                assert(r[j] == b[k]);
            } else {
                assert(r[with_a.len() as int] == b[k]);
            }
        }
    }
}

/// The hop task visits every channel of the band: its sequence holds each
/// 2.4 GHz channel of the mask and each 5 GHz channel of the list (the
/// default UNII-1 list when none is given), each exactly once per cycle, as a
/// 2.4 GHz or 5 GHz hop with that channel's frequency.
pub proof fn lemma_hop_sequence_covers_channels(band: WifiBand, mask: u16, chs: Seq<u8>)
    requires
        !(band.spec_uses_2g() && !mask_is_valid(mask)),
    ensures
        ({
            let plan = hop_plan(band, mask, chs);
            let c2 = band_channels_2g(band, mask);
            let c5 = band_channels_5g(band, chs);
            &&& plan.len() == c2.len() + c5.len()
            &&& forall|k: int| #![trigger c2[k]] 0 <= k < c2.len() ==> exists|j: int| 0 <= j < plan.len() && #[trigger] plan[j]
                == (HopChannel { channel: c2[k], freq_mhz: spec_freq_mhz(c2[k], false), is_5ghz: false })
            &&& forall|k: int| #![trigger c5[k]] 0 <= k < c5.len() ==> exists|j: int| 0 <= j < plan.len() && #[trigger] plan[j]
                == (HopChannel { channel: c5[k], freq_mhz: spec_freq_mhz(c5[k], true), is_5ghz: true })
        }),
{
    let c2 = band_channels_2g(band, mask);
    let c5 = band_channels_5g(band, chs);
    let a = hops(c2, false);
    let b = hops(c5, true);
    let n: nat = if a.len() >= b.len() { a.len() } else { b.len() };
    lemma_hop_rounds_cover(a, b, n);
    let plan = hop_plan(band, mask, chs);
    assert(plan == hop_rounds(a, b, n));
    assert forall|k: int| #![trigger c2[k]] 0 <= k < c2.len() implies exists|j: int| 0 <= j < plan.len() && #[trigger] plan[j]
        == (HopChannel { channel: c2[k], freq_mhz: spec_freq_mhz(c2[k], false), is_5ghz: false }) by {
        assert(a[k] == hop_of(c2[k], false));
    }
    assert forall|k: int| #![trigger c5[k]] 0 <= k < c5.len() implies exists|j: int| 0 <= j < plan.len() && #[trigger] plan[j]
        == (HopChannel { channel: c5[k], freq_mhz: spec_freq_mhz(c5[k], true), is_5ghz: true }) by {
        assert(b[k] == hop_of(c5[k], true));
    }
}

/// The band's channel lists: 2.4 GHz channel `c` (1..=14) is in the list
/// exactly when the band uses 2.4 GHz and bit `c - 1` of the mask is set; on
/// a band using 5 GHz the 5 GHz list is the given list, or 36, 40, 44, 48
/// when none is given.
pub proof fn lemma_band_channel_lists(band: WifiBand, mask: u16, chs: Seq<u8>)
    ensures
        band.spec_uses_5g() && chs.len() > 0 ==> band_channels_5g(band, chs) == chs,
        band.spec_uses_5g() && chs.len() == 0 ==> band_channels_5g(band, chs) == seq![36u8, 40, 44, 48],
        !band.spec_uses_5g() ==> band_channels_5g(band, chs).len() == 0,
        !band.spec_uses_2g() ==> band_channels_2g(band, mask).len() == 0,
        band == WifiBand::Both ==> band.spec_uses_2g() && band.spec_uses_5g(),
        band == WifiBand::TwoG ==> band.spec_uses_2g() && !band.spec_uses_5g(),
        band == WifiBand::FiveG ==> !band.spec_uses_2g() && band.spec_uses_5g(),
{
    assert(DEFAULT_CHANNELS_5GHZ@ =~= seq![36u8, 40, 44, 48]);
}

/// The channels of a hop mask: in ascending order, without repeats, each in
/// `1..=n`, and channel `c` is among them exactly when its bit is set.
pub proof fn lemma_mask_channels_members(mask: u16, n: nat)
    requires
        n <= 14,
    ensures
        forall|i: int, j: int| 0 <= i < j < mask_channels(mask, n).len() ==> #[trigger] mask_channels(mask, n)[i]
            < #[trigger] mask_channels(mask, n)[j],
        forall|i: int| 0 <= i < mask_channels(mask, n).len() ==> 1 <= #[trigger] mask_channels(mask, n)[i] <= n,
        forall|c: u8| 1 <= c <= n ==> (mask_channels(mask, n).contains(c) <==> #[trigger] mask_has_channel(mask, c)),
    decreases n,
{
    if n > 0 {
        let m = (n - 1) as nat;
        lemma_mask_channels_members(mask, m);
        let prev = mask_channels(mask, m);
        let r = mask_channels(mask, n);
        assert forall|c: u8| 1 <= c <= n implies (r.contains(c) <==> #[trigger] mask_has_channel(mask, c)) by {
            if c < n {
                if r.contains(c) {
                    let k = choose|k: int| 0 <= k < r.len() && r[k] == c;
                    if k < prev.len() {
                        assert(prev[k] == c);
                    }
                }
                if prev.contains(c) {
                    let k = choose|k: int| 0 <= k < prev.len() && prev[k] == c;
                    assert(r[k] == c);
                }
            } else {
                if mask_has_channel(mask, c) {
                    assert(r[r.len() - 1] == c);
                } else {
                    if r.contains(c) {
                        let k = choose|k: int| 0 <= k < r.len() && r[k] == c;
                        assert(prev[k] == c);
                    }
                }
            }
        }
    }
}

/// 2.4 GHz channels 1 to 13 are 5 MHz apart starting at 2412 MHz, channel 14
/// is 2484 MHz; 5 GHz channels are 5 MHz apart with channel 36 at 5180 MHz.
pub proof fn lemma_channel_frequencies(c: u8)
    ensures
        spec_freq_mhz(1, false) == 2412,
        1 <= c < 13 ==> spec_freq_mhz((c + 1) as u8, false) == spec_freq_mhz(c, false) + 5,
        spec_freq_mhz(14, false) == 2484,
        spec_freq_mhz(36, true) == 5180,
        c < 255 ==> spec_freq_mhz((c + 1) as u8, true) == spec_freq_mhz(c, true) + 5,
{
}

} // verus!
