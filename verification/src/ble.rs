//! BLE advertising data and scan timing.
use vstd::prelude::*;
use crate::mac::{visible, visible_text};
use crate::text::{decode_lossy, utf8_lossy};

verus! {

/// Parsed BLE advertising data fields used in discovery events.
#[derive(Debug, Clone, PartialEq, Eq)]
pub struct AdvFields {
    pub name: Option<String>,
    pub company_id: Option<u16>,
}

impl Default for AdvFields {
    fn default() -> (f: Self)
        ensures
            f.name is None && f.company_id is None,
    {
        AdvFields { name: None, company_id: None }
    }
}

/// The view of an optional string.
pub open spec fn opt_text(o: Option<String>) -> Option<Seq<char>> {
    match o {
        Some(s) => Some(s@),
        None => None,
    }
}

/// The AD structures of an advertisement, in order: each is a length byte
/// `L >= 1`, a type byte and `L - 1` value bytes. The walk stops at a zero
/// length or at a structure that would run past the end.
pub open spec fn ad_records(data: Seq<u8>) -> Seq<(u8, Seq<u8>)>
    decreases data.len(),
{
    if data.len() == 0 || data[0] == 0 || 1 + data[0] > data.len() {
        Seq::empty()
    } else {
        seq![(data[1], data.subrange(2, 1 + data[0] as int))] + ad_records(data.skip(1 + data[0] as int))
    }
}

/// Text of a name value: decoded with replacement and stripped of invisible characters.
pub open spec fn name_text(value: Seq<u8>) -> Seq<char> {
    visible(utf8_lossy(value))
}

/// One AD structure applied to (name, company id): a complete local name (0x09)
/// always sets the name, a shortened one (0x08) only fills a missing name, and
/// manufacturer data (0xFF) with at least two bytes sets the little-endian company id.
pub open spec fn adv_step(st: (Option<Seq<char>>, Option<u16>), rec: (u8, Seq<u8>)) -> (
    Option<Seq<char>>,
    Option<u16>,
) {
    if rec.0 == 0x08 || rec.0 == 0x09 {
        if st.0 is None || rec.0 == 0x09 {
            (Some(name_text(rec.1)), st.1)
        } else {
            st
        }
    } else if rec.0 == 0xff && rec.1.len() >= 2 {
        (st.0, Some((rec.1[0] + 256 * rec.1[1]) as u16))
    } else {
        st
    }
}

/// The fields after applying the AD structures in order.
pub open spec fn adv_fold(recs: Seq<(u8, Seq<u8>)>) -> (Option<Seq<char>>, Option<u16>)
    decreases recs.len(),
{
    if recs.len() == 0 {
        (None, None)
    } else {
        adv_step(adv_fold(recs.drop_last()), recs.last())
    }
}

proof fn lemma_ad_records_step(data: Seq<u8>, i: int)
    requires
        0 <= i < data.len(),
        data[i] != 0,
        i + 1 + data[i] <= data.len(),
    ensures
        ad_records(data.skip(i)) == seq![(data[i + 1], data.subrange(i + 2, i + 1 + data[i]))]
            + ad_records(data.skip(i + 1 + data[i])),
{
    let s = data.skip(i);
    assert(s[0] == data[i]);
    assert(s[1] == data[i + 1]);
    assert(s.subrange(2, 1 + s[0] as int) == data.subrange(i + 2, i + 1 + data[i]));
    assert(s.skip(1 + s[0] as int) == data.skip(i + 1 + data[i]));
}

/// Walks the AD structures of an advertisement and picks the local name and
/// the company id.
pub fn parse_adv(data: &[u8]) -> (f: AdvFields)
    ensures
        (opt_text(f.name), f.company_id) == adv_fold(ad_records(data@)),
{
    let mut name: Option<String> = None;
    let mut company_id: Option<u16> = None;
    let mut i: usize = 0;
    let ghost mut done: Seq<(u8, Seq<u8>)> = Seq::empty();
    assert(data@.skip(0) == data@);
    while i < data.len()
        invariant_except_break
            i <= data.len(),
            ad_records(data@) == done + ad_records(data@.skip(i as int)),
            (opt_text(name), company_id) == adv_fold(done),
        ensures
            ad_records(data@) == done,
            (opt_text(name), company_id) == adv_fold(done),
        decreases data.len() - i,
    {
        let elen = data[i] as usize;
        if elen == 0 {
            assert(ad_records(data@.skip(i as int)) == Seq::<(u8, Seq<u8>)>::empty());
            assert(done + Seq::<(u8, Seq<u8>)>::empty() == done);
            break;
        }
        if elen + 1 > data.len() - i {
            assert(ad_records(data@.skip(i as int)) == Seq::<(u8, Seq<u8>)>::empty());
            assert(done + Seq::<(u8, Seq<u8>)>::empty() == done);
            break;
        }
        proof {
            lemma_ad_records_step(data@, i as int);
        }
        let typ = data[i + 1];
        let val = &data[i + 2..i + 1 + elen];
        let ghost rec = (typ, val@);
        assert(rec == (data@[i + 1], data@.subrange(i + 2, i + 1 + elen)));
        if typ == 0x08 || typ == 0x09 {
            if name.is_none() || typ == 0x09 {
                let text = decode_lossy(val);
                name = Some(visible_text(text.as_str()));
            }
        } else if typ == 0xff && val.len() >= 2 {
            company_id = Some((val[0] as u16) + 256 * (val[1] as u16));
        }
        proof {
            let nd = done.push(rec);
            assert(nd.drop_last() == done);
            assert(ad_records(data@) == nd + ad_records(data@.skip(i + 1 + elen)));
            done = nd;
        }
        i = i + 1 + elen;
    }
    AdvFields { name, company_id }
}

/// Milliseconds in NimBLE units of 0.625 ms, clamped to 4..=0x4000.
pub open spec fn spec_scan_units(ms: u16) -> u16 {
    let u = ms * 8 / 5;
    if u < 4 {
        4
    } else if u > 0x4000 {
        0x4000
    } else {
        u as u16
    }
}

/// NimBLE scan interval and window are in 0.625 ms units, spec range 4..=0x4000.
pub fn scan_units(ms: u16) -> (u: u16)
    ensures
        u == spec_scan_units(ms),
        4 <= u <= 0x4000,
{
    let units: u32 = (ms as u32) * 8 / 5;
    if units < 4 {
        4
    } else if units > 0x4000 {
        0x4000
    } else {
        units as u16
    }
}

/// Scan window in NimBLE units, never longer than the interval.
pub fn scan_window(interval_ms: u16, window_ms: u16) -> (w: u16)
    ensures
        w == if spec_scan_units(window_ms) <= spec_scan_units(interval_ms) {
            spec_scan_units(window_ms)
        } else {
            spec_scan_units(interval_ms)
        },
        w <= spec_scan_units(interval_ms),
{
    let w = scan_units(window_ms);
    let i = scan_units(interval_ms);
    if w <= i {
        w
    } else {
        i
    }
}

/// Scan timing in 0.625 ms units: a longer time never gives fewer units;
/// between 3 and 10240 ms the units are the time rounded down to a whole
/// number of 0.625 ms steps, outside that range they are held at 4 and 0x4000.
pub proof fn lemma_scan_units_scale(a: u16, b: u16)
    ensures
        a <= b ==> spec_scan_units(a) <= spec_scan_units(b),
        3 <= a <= 10240 ==> 5 * spec_scan_units(a) <= 8 * a < 5 * (spec_scan_units(a) + 1),
        a < 3 ==> spec_scan_units(a) == 4,
        a > 10240 ==> spec_scan_units(a) == 0x4000,
{
    assert(a <= b ==> a * 8 / 5 <= b * 8 / 5) by (nonlinear_arith);
    assert(5 * (a * 8 / 5) <= 8 * a < 5 * (a * 8 / 5 + 1)) by (nonlinear_arith);
    assert(a >= 3 ==> a * 8 / 5 >= 4) by (nonlinear_arith);
    assert(a <= 10240 ==> a * 8 / 5 <= 0x4000) by (nonlinear_arith);
    assert(a > 10240 ==> a * 8 / 5 > 0x4000) by (nonlinear_arith);
    assert(a < 3 ==> a * 8 / 5 < 4) by (nonlinear_arith);
}

/// Controller addresses are little-endian. Display order is the reverse.
pub fn display_addr(controller: [u8; 6]) -> (a: [u8; 6])
    ensures
        a@ == controller@.reverse(),
{
    let a = [controller[5], controller[4], controller[3], controller[2], controller[1], controller[0]];
    assert(a@ =~= controller@.reverse());
    a
}

/// Reversing to display order twice gives the controller order back.
pub proof fn lemma_display_addr_involution(a: Seq<u8>)
    ensures
        a.reverse().reverse() == a,
{
    assert(a.reverse().reverse() =~= a);
}

/// When an advertisement holds a complete local name (0x09), the parsed name is
/// the text of the last one, whatever shortened names surround it.
pub proof fn lemma_complete_name_wins(recs: Seq<(u8, Seq<u8>)>, k: int)
    requires
        0 <= k < recs.len(),
        recs[k].0 == 0x09,
        forall|j: int| k < j < recs.len() ==> (#[trigger] recs[j]).0 != 0x09,
    ensures
        adv_fold(recs).0 == Some(name_text(recs[k].1)),
    decreases recs.len(),
{
    if k < recs.len() - 1 {
        let p = recs.drop_last();
        assert forall|j: int| k < j < p.len() implies (#[trigger] p[j]).0 != 0x09 by {
            assert(p[j] == recs[j]);
        }
        lemma_complete_name_wins(p, k);
        assert(recs.last() == recs[recs.len() - 1]);
    } else {
        assert(recs.last() == recs[k]);
    }
}

} // verus!
