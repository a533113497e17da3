//! Reading the chip from a status reply, checking band options against it,
//! picking JSON out of console lines, and splitting framed PCAP output.
use vstd::prelude::*;
use crate::event::{Event, EventView};
use crate::host::Error;
use crate::pcap::{decode_frames, decode_from, frames_view, push_bytes, SerialFrame, TYPE_BLE, TYPE_WIFI};
use crate::text::{chars_of, owned, same_text, string_of, trim_chars, trimmed};
use crate::text::prefixed_str;
use crate::types::{Chip, WifiBand};

verus! {

/// The chip a `status` reply names: `esp32s3` or `esp32c5`.
pub open spec fn chip_named(name: Seq<char>) -> Option<Chip> {
    if name == "esp32s3"@ {
        Some(Chip::Esp32s3)
    } else if name == "esp32c5"@ {
        Some(Chip::Esp32c5)
    } else {
        None
    }
}

/// The chip a `status` event names, or why there is none: another event, a
/// status without a chip, an unknown chip name.
pub open spec fn status_chip(ev: EventView) -> Result<Chip, Seq<char>> {
    match ev {
        EventView::Status { chip: None, .. } => Err("status missing chip"@),
        EventView::Status { chip: Some(name), .. } => match chip_named(name) {
            Some(c) => Ok(c),
            None => Err("unknown chip "@ + name),
        },
        _ => Err("expected status event"@),
    }
}

/// Reads the chip from a `status` event (see `status_chip`).
pub fn chip_from_status(ev: &Event) -> (r: Result<Chip, Error>)
    ensures
        match status_chip(ev@) {
            Ok(c) => r == Ok::<Chip, Error>(c),
            Err(m) => r matches Err(Error::Msg(s)) && s@ == m,
        },
{
    proof {
        reveal_strlit("esp32s3");
        reveal_strlit("esp32c5");
    }
    match ev {
        Event::Status(doc) => match &doc.chip {
            Some(name) => {
                if same_text(name.as_str(), "esp32s3") {
                    Ok(Chip::Esp32s3)
                } else if same_text(name.as_str(), "esp32c5") {
                    Ok(Chip::Esp32c5)
                } else {
                    Err(Error::Msg(prefixed_str("unknown chip ", name.as_str())))
                }
            },
            None => Err(Error::msg("status missing chip")),
        },
        _ => Err(Error::msg("expected status event")),
    }
}

/// Why the CLI refuses band options for a chip, if it does: on a chip
/// without 5 GHz, a band using 5 GHz first, then any 5 GHz channel.
pub open spec fn band_refusal(chip: Chip, band: Option<WifiBand>, channels_5ghz_len: nat) -> Option<Seq<char>> {
    if chip.spec_supports_5ghz() {
        None
    } else if band matches Some(b) && b.spec_uses_5g() {
        Some("ESP32-S3 does not support 5 GHz; omit --wifi-band 5/both"@)
    } else if channels_5ghz_len > 0 {
        Some("ESP32-S3 rejects --channels-5ghz"@)
    } else {
        None
    }
}

/// Refuses 5 GHz options on a chip without 5 GHz (see `band_refusal`).
pub fn reject_illegal_band(chip: Chip, band: Option<WifiBand>, channels_5ghz: &[u8]) -> (r: Result<(), Error>)
    ensures
        match band_refusal(chip, band, channels_5ghz@.len()) {
            None => r is Ok,
            Some(m) => r matches Err(Error::Msg(s)) && s@ == m,
        },
{
    if chip.supports_5ghz() {
        return Ok(());
    }
    match band {
        Some(b) => {
            if b.uses_5g() {
                return Err(Error::msg("ESP32-S3 does not support 5 GHz; omit --wifi-band 5/both"));
            }
        },
        None => {},
    }
    if channels_5ghz.len() != 0 {
        return Err(Error::msg("ESP32-S3 rejects --channels-5ghz"));
    }
    Ok(())
}

/// Index of the first `{`.
pub open spec fn first_brace(s: Seq<char>) -> Option<int>
    decreases s.len(),
{
    if s.len() == 0 {
        None
    } else {
        match first_brace(s.drop_last()) {
            Some(i) => Some(i),
            None => if s.last() == '{' { Some(s.len() - 1) } else { None },
        }
    }
}

/// The JSON part of a console line: the trimmed line from its first `{` on.
/// Boot messages may precede it on the same line; a blank line or one without
/// `{` has none.
pub open spec fn json_part(line: Seq<char>) -> Option<Seq<char>> {
    let t = trimmed(line);
    if t.len() == 0 {
        None
    } else {
        match first_brace(t) {
            Some(i) => Some(t.skip(i)),
            None => None,
        }
    }
}

proof fn lemma_first_brace_prefix(s: Seq<char>, i: int)
    requires
        0 <= i < s.len(),
        first_brace(s.take(i)) is None,
        s[i] == '{',
    ensures
        first_brace(s) == Some(i),
    decreases s.len(),
{
    if i == s.len() - 1 {
        assert(s.drop_last() == s.take(i));
    } else {
        assert(s.drop_last().take(i) == s.take(i));
        lemma_first_brace_prefix(s.drop_last(), i);
    }
}

proof fn lemma_first_brace_spec(s: Seq<char>)
    ensures
        first_brace(s) matches Some(i) ==> 0 <= i < s.len() && s[i] == '{' && forall|k: int| 0 <= k < i ==> s[k] != '{',
        first_brace(s) is None ==> forall|k: int| 0 <= k < s.len() ==> s[k] != '{',
    decreases s.len(),
{
    if s.len() > 0 {
        lemma_first_brace_spec(s.drop_last());
        assert forall|k: int| 0 <= k < s.len() - 1 implies s[k] == s.drop_last()[k] by {}
    }
}

/// The JSON part of a console line begins at the line's first `{`: the
/// trimmed line is some text without `{` followed by the JSON part, which
/// starts with `{`. A line without `{` (or a blank one) has no JSON part.
pub proof fn lemma_json_part_starts_at_first_brace(line: Seq<char>)
    ensures
        json_part(line) matches Some(j) ==> (j.len() > 0 && j[0] == '{' && exists|p: Seq<char>|
            #[trigger] (p + j) == trimmed(line) && forall|k: int| 0 <= k < p.len() ==> p[k] != '{'),
        json_part(line) is None ==> forall|k: int| 0 <= k < trimmed(line).len() ==> trimmed(line)[k] != '{',
{
    let t = trimmed(line);
    lemma_first_brace_spec(t);
    if t.len() > 0 {
        if let Some(i) = first_brace(t) {
            let p = t.take(i);
            let j = t.skip(i);
            assert(p + j =~= t);
            assert forall|k: int| 0 <= k < p.len() implies p[k] != '{' by {
                assert(p[k] == t[k]);
            }
        }
    }
}

/// Picks the JSON object out of a console line (see `json_part`).
pub fn extract_json(line: &str) -> (r: Option<String>)
    ensures
        match json_part(line@) {
            Some(j) => r matches Some(s) && s@ == j,
            None => r is None,
        },
{
    let cs = chars_of(line);
    let t = trim_chars(&cs);
    if t.len() == 0 {
        return None;
    }
    let mut i: usize = 0;
    while i < t.len()
        invariant
            i <= t@.len(),
            t@ == trimmed(line@),
            first_brace(t@.take(i as int)) is None,
        decreases t@.len() - i,
    {
        assert(t@.take(i + 1).drop_last() == t@.take(i as int));
        if t[i] == '{' {
            proof {
                lemma_first_brace_prefix(t@, i as int);
            }
            let mut rest: Vec<char> = Vec::new();
            let mut k: usize = i;
            while k < t.len()
                invariant
                    i <= k <= t@.len(),
                    rest@ == t@.subrange(i as int, k as int),
                decreases t@.len() - k,
            {
                rest.push(t[k]);
                k += 1;
                assert(rest@ == t@.subrange(i as int, k as int));
            }
            assert(t@.subrange(i as int, t@.len() as int) == t@.skip(i as int));
            return Some(string_of(rest.as_slice()));
        }
        i += 1;
    }
    assert(t@.take(t@.len() as int) == t@);
    None
}

/// The payloads of the frames of one type, concatenated in order.
pub open spec fn payloads_of(frames: Seq<(u8, Seq<u8>)>, typ: u8) -> Seq<u8>
    decreases frames.len(),
{
    if frames.len() == 0 {
        Seq::empty()
    } else {
        payloads_of(frames.drop_last(), typ) + if frames.last().0 == typ {
            frames.last().1
        } else {
            Seq::empty()
        }
    }
}

/// Splits framed device output into what goes to the WiFi PCAP file (the
/// payloads of WiFi frames) and to the BLE PCAP file (those of BLE frames),
/// and how many bytes were used. Global-header frames and frames of other
/// types are dropped: the files get their own headers when created.
pub fn route_frames(buf: &[u8]) -> (r: (Vec<u8>, Vec<u8>, usize))
    ensures
        r.0@ == payloads_of(decode_from(buf@, 0).0, TYPE_WIFI),
        r.1@ == payloads_of(decode_from(buf@, 0).0, TYPE_BLE),
        r.2 == decode_from(buf@, 0).1,
        r.2 <= buf@.len(),
{
    let (frames, n) = decode_frames(buf);
    let ghost fv = frames_view(frames@);
    let mut wifi: Vec<u8> = Vec::new();
    let mut ble: Vec<u8> = Vec::new();
    let mut i: usize = 0;
    while i < frames.len()
        invariant
            i <= frames@.len(),
            fv == frames_view(frames@),
            wifi@ == payloads_of(fv.take(i as int), TYPE_WIFI),
            ble@ == payloads_of(fv.take(i as int), TYPE_BLE),
        decreases frames@.len() - i,
    {
        assert(fv.take(i + 1).drop_last() == fv.take(i as int));
        assert(fv.take(i + 1).last() == (frames@[i as int].typ, frames@[i as int].payload@));
        let f: &SerialFrame = &frames[i];
        if f.typ == TYPE_WIFI {
            push_bytes(&mut wifi, f.payload.as_slice());
        } else if f.typ == TYPE_BLE {
            push_bytes(&mut ble, f.payload.as_slice());
        }
        assert(wifi@ =~= payloads_of(fv.take(i + 1), TYPE_WIFI));
        assert(ble@ =~= payloads_of(fv.take(i + 1), TYPE_BLE));
        i += 1;
    }
    assert(fv.take(fv.len() as int) == fv);
    (wifi, ble, n)
}

} // verus!
