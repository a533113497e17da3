//! MAC addresses, OUI prefixes and hex text.
use vstd::prelude::*;
use crate::error::Error;
use crate::text::{
    chars_of, owned, push_char, push_hex2, hex2, hex_char, hex_val, hex_number, all_hex,
    radix16_u16, parse_radix16_u16,
};

verus! {

/// `:` and `-` may separate the octets of an address.
pub open spec fn is_separator(c: char) -> bool {
    c == ':' || c == '-'
}

/// The characters of `s` that are not separators.
pub open spec fn strip_separators(s: Seq<char>) -> Seq<char>
    decreases s.len(),
{
    if s.len() == 0 {
        Seq::empty()
    } else if is_separator(s.last()) {
        strip_separators(s.drop_last())
    } else {
        strip_separators(s.drop_last()).push(s.last())
    }
}

/// `u8::from_str_radix(.., 16)` of a two-character chunk.
pub open spec fn octet_value(a: char, b: char) -> Option<u8> {
    match radix16_u16(seq![a, b]) {
        Some(v) => Some(v as u8),
        None => None,
    }
}

/// The `n` octets written in `s`: exactly `2 n` characters once separators are
/// dropped, each pair read as one hex octet.
pub open spec fn octets_of(s: Seq<char>, n: nat) -> Option<Seq<u8>> {
    let h = strip_separators(s);
    if h.len() == 2 * n && (forall|k: int|
        0 <= k < n ==> (#[trigger] octet_value(h[2 * k], h[2 * k + 1])) is Some) {
        Some(Seq::new(n, |k: int| octet_value(h[2 * k], h[2 * k + 1]).unwrap()))
    } else {
        None
    }
}

fn strip_separators_exec(cs: &Vec<char>) -> (h: Vec<char>)
    ensures
        h@ == strip_separators(cs@),
{
    let mut h: Vec<char> = Vec::new();
    let mut i: usize = 0;
    while i < cs.len()
        invariant
            i <= cs.len(),
            h@ == strip_separators(cs@.take(i as int)),
        decreases cs.len() - i,
    {
        assert(cs@.take(i + 1).drop_last() == cs@.take(i as int));
        if cs[i] != ':' && cs[i] != '-' {
            h.push(cs[i]);
        }
        i += 1;
    }
    assert(cs@.take(cs.len() as int) == cs@);
    h
}

fn parse_octets(s: &str, n: usize) -> (r: Result<Vec<u8>, Error>)
    requires
        n <= 6,
    ensures
        octets_of(s@, n as nat) matches Some(o) ==> (r matches Ok(v) && v@ == o),
        octets_of(s@, n as nat) is None ==> (r matches Err(Error::Mac(m)) && m@ == s@),
{
    let cs = chars_of(s);
    let h = strip_separators_exec(&cs);
    let ghost hs = strip_separators(s@);
    if h.len() != 2 * n {
        return Err(Error::Mac(owned(s)));
    }
    let mut out: Vec<u8> = Vec::new();
    let mut k: usize = 0;
    while k < n
        invariant
            k <= n <= 6,
            h@ == hs,
            hs == strip_separators(s@),
            hs.len() == 2 * n,
            out@.len() == k,
            forall|j: int| 0 <= j < k ==> (#[trigger] octet_value(hs[2 * j], hs[2 * j + 1])) is Some
                && out@[j] == octet_value(hs[2 * j], hs[2 * j + 1]).unwrap(),
        decreases n - k,
    {
        let pair = [h[2 * k], h[2 * k + 1]];
        assert(pair@ == seq![hs[2 * k as int], hs[2 * k + 1]]);
        match parse_radix16_u16(&pair) {
            Some(v) => {
                out.push(v as u8);
            },
            None => {
                assert(octet_value(hs[2 * k as int], hs[2 * k + 1]) is None);
                return Err(Error::Mac(owned(s)));
            },
        }
        k += 1;
    }
    assert(out@ == octets_of(s@, n as nat).unwrap());
    Ok(out)
}

/// Parses a MAC address: 12 hex digits, with optional `:`/`-` separators.
pub fn parse_mac(s: &str) -> (r: Result<[u8; 6], Error>)
    ensures
        octets_of(s@, 6) matches Some(o) ==> (r matches Ok(m) && m@ == o),
        octets_of(s@, 6) is None ==> (r matches Err(Error::Mac(m)) && m@ == s@),
{
    match parse_octets(s, 6) {
        Ok(v) => {
            let m = [v[0], v[1], v[2], v[3], v[4], v[5]];
            assert(m@ == v@);
            Ok(m)
        },
        Err(e) => Err(e),
    }
}

/// Parses an OUI: 6 hex digits, with optional `:`/`-` separators.
pub fn parse_oui(s: &str) -> (r: Result<[u8; 3], Error>)
    ensures
        octets_of(s@, 3) matches Some(o) ==> (r matches Ok(m) && m@ == o),
        octets_of(s@, 3) is None ==> (r matches Err(Error::Mac(m)) && m@ == s@),
{
    match parse_octets(s, 3) {
        Ok(v) => {
            let m = [v[0], v[1], v[2]];
            assert(m@ == v@);
            Ok(m)
        },
        Err(e) => Err(e),
    }
}

/// Lower-case hex octets joined by `:`.
pub open spec fn colon_hex(bytes: Seq<u8>) -> Seq<char>
    decreases bytes.len(),
{
    if bytes.len() == 0 {
        Seq::empty()
    } else if bytes.len() == 1 {
        hex2(bytes[0])
    } else {
        colon_hex(bytes.drop_last()) + seq![':'] + hex2(bytes.last())
    }
}

/// Lower-case hex octets with nothing between them.
pub open spec fn plain_hex(bytes: Seq<u8>) -> Seq<char>
    decreases bytes.len(),
{
    if bytes.len() == 0 {
        Seq::empty()
    } else {
        plain_hex(bytes.drop_last()) + hex2(bytes.last())
    }
}

fn format_octets(bytes: &[u8]) -> (s: String)
    ensures
        s@ == colon_hex(bytes@),
{
    let mut s = String::new();
    let mut i: usize = 0;
    while i < bytes.len()
        invariant
            i <= bytes.len(),
            s@ == colon_hex(bytes@.take(i as int)),
        decreases bytes.len() - i,
    {
        let ghost pre = bytes@.take(i as int);
        assert(bytes@.take(i + 1).drop_last() == pre);
        if i > 0 {
            push_char(&mut s, ':');
        }
        push_hex2(&mut s, bytes[i]);
        i += 1;
    }
    assert(bytes@.take(bytes.len() as int) == bytes@);
    s
}

/// `aa:bb:cc:dd:ee:ff`, lower case.
pub fn format_mac(mac: &[u8; 6]) -> (s: String)
    ensures
        s@ == colon_hex(mac@),
{
    format_octets(mac)
}

/// `aa:bb:cc`, lower case.
pub fn format_oui(oui: &[u8; 3]) -> (s: String)
    ensures
        s@ == colon_hex(oui@),
{
    format_octets(oui)
}

/// The first three octets of an address.
pub fn oui_of(mac: &[u8; 6]) -> (o: [u8; 3])
    ensures
        o@ == mac@.take(3),
{
    let o = [mac[0], mac[1], mac[2]];
    assert(o@ == mac@.take(3));
    o
}

/// Bytes as lower-case hex without separators.
pub fn payload_hex(bytes: &[u8]) -> (s: String)
    ensures
        s@ == plain_hex(bytes@),
{
    let mut s = String::new();
    let mut i: usize = 0;
    while i < bytes.len()
        invariant
            i <= bytes.len(),
            s@ == plain_hex(bytes@.take(i as int)),
        decreases bytes.len() - i,
    {
        assert(bytes@.take(i + 1).drop_last() == bytes@.take(i as int));
        push_hex2(&mut s, bytes[i]);
        i += 1;
    }
    assert(bytes@.take(bytes.len() as int) == bytes@);
    s
}

/// A character that is shown in names and SSIDs: not a control character
/// (U+0000..U+001F, U+007F..U+009F) and not the replacement character U+FFFD.
pub open spec fn is_visible(c: char) -> bool {
    let u = c as u32;
    !(u <= 0x1f || (0x7f <= u && u <= 0x9f) || u == 0xfffd)
}

/// The visible characters of `s`, in order.
pub open spec fn visible(s: Seq<char>) -> Seq<char>
    decreases s.len(),
{
    if s.len() == 0 {
        Seq::empty()
    } else if is_visible(s.last()) {
        visible(s.drop_last()).push(s.last())
    } else {
        visible(s.drop_last())
    }
}

/// Drops control characters and replacement characters from decoded text.
pub fn visible_text(s: &str) -> (r: String)
    ensures
        r@ == visible(s@),
{
    let cs = chars_of(s);
    let mut r = String::new();
    let mut i: usize = 0;
    while i < cs.len()
        invariant
            i <= cs.len(),
            cs@ == s@,
            r@ == visible(cs@.take(i as int)),
        decreases cs.len() - i,
    {
        assert(cs@.take(i + 1).drop_last() == cs@.take(i as int));
        let c = cs[i];
        let u = c as u32;
        if !(u <= 0x1f || (0x7f <= u && u <= 0x9f) || u == 0xfffd) {
            push_char(&mut r, c);
        }
        i += 1;
    }
    assert(cs@.take(cs.len() as int) == cs@);
    r
}

} // verus!

verus! {

pub(crate) proof fn lemma_hex_char_value(n: nat)
    requires
        n < 16,
    ensures
        hex_val(hex_char(n)) == Some(n),
        hex_char(n) != '+',
        !is_separator(hex_char(n)),
{
    if n < 10 {
        assert(('0' as u32 + n) as char as u32 == '0' as u32 + n);
    } else {
        assert(('a' as u32 + n - 10) as char as u32 == 'a' as u32 + n - 10);
    }
}

proof fn lemma_octet_of_hex2(b: u8)
    ensures
        octet_value(hex2(b)[0], hex2(b)[1]) == Some(b),
{
    let h = hex2(b);
    lemma_hex_char_value((b / 16) as nat);
    lemma_hex_char_value((b % 16) as nat);
    let s = seq![h[0], h[1]];
    assert(s == h);
    let s1 = seq![h[0]];
    assert(s.drop_last() =~= s1);
    assert(s1.drop_last() =~= Seq::<char>::empty());
    assert(s1.last() == h[0]);
    assert(hex_number(s1.drop_last()) == 0);
    assert(hex_number(s1) == (b / 16) as nat);
    assert(hex_number(s) == (b / 16) as nat * 16 + (b % 16) as nat);
    assert(all_hex(s));
}

proof fn lemma_strip_concat(a: Seq<char>, b: Seq<char>)
    ensures
        strip_separators(a + b) == strip_separators(a) + strip_separators(b),
    decreases b.len(),
{
    if b.len() == 0 {
        assert(a + b == a);
    } else {
        lemma_strip_concat(a, b.drop_last());
        assert((a + b).drop_last() == a + b.drop_last());
        assert((a + b).last() == b.last());
    }
}

proof fn lemma_strip_hex2(b: u8)
    ensures
        strip_separators(hex2(b)) == hex2(b),
{
    lemma_hex_char_value((b / 16) as nat);
    lemma_hex_char_value((b % 16) as nat);
    let h = hex2(b);
    let s1 = seq![h[0]];
    assert(h.drop_last() =~= s1);
    assert(s1.drop_last() =~= Seq::<char>::empty());
    assert(strip_separators(s1.drop_last()) == Seq::<char>::empty());
    assert(strip_separators(s1) == Seq::<char>::empty().push(h[0]));
    assert(strip_separators(h) == strip_separators(s1).push(h[1]));
    assert(strip_separators(h) =~= h);
}

proof fn lemma_strip_colon_hex(m: Seq<u8>)
    ensures
        strip_separators(colon_hex(m)) == plain_hex(m),
    decreases m.len(),
{
    if m.len() == 1 {
        lemma_strip_hex2(m[0]);
        assert(m.drop_last() =~= Seq::<u8>::empty());
        assert(plain_hex(m) == plain_hex(m.drop_last()) + hex2(m[0]));
        assert(plain_hex(m) =~= hex2(m[0]));
    } else if m.len() > 1 {
        lemma_strip_colon_hex(m.drop_last());
        let c = colon_hex(m.drop_last());
        lemma_strip_concat(c + seq![':'], hex2(m.last()));
        lemma_strip_concat(c, seq![':']);
        assert(seq![':'].drop_last() =~= Seq::<char>::empty());
        assert(seq![':'].last() == ':');
        assert(strip_separators(seq![':'].drop_last()) == Seq::<char>::empty());
        assert(strip_separators(seq![':']) == Seq::<char>::empty());
        lemma_strip_hex2(m.last());
        assert(strip_separators(c + seq![':']) == strip_separators(c));
    }
}

proof fn lemma_plain_hex_index(m: Seq<u8>, k: int)
    requires
        0 <= k < m.len(),
    ensures
        plain_hex(m).len() == 2 * m.len(),
        plain_hex(m)[2 * k] == hex2(m[k])[0],
        plain_hex(m)[2 * k + 1] == hex2(m[k])[1],
    decreases m.len(),
{
    let p = plain_hex(m.drop_last());
    if k < m.len() - 1 {
        lemma_plain_hex_index(m.drop_last(), k);
    } else if m.len() > 1 {
        lemma_plain_hex_index(m.drop_last(), 0);
    }
}

/// Formatting octets and parsing them back gives the same octets: the text
/// `format_mac` / `format_oui` write is read back unchanged by `parse_mac` /
/// `parse_oui`.
pub proof fn lemma_octets_text_round_trip(m: Seq<u8>)
    requires
        m.len() > 0,
    ensures
        octets_of(colon_hex(m), m.len()) == Some(m),
{
    lemma_strip_colon_hex(m);
    let h = plain_hex(m);
    lemma_plain_hex_index(m, 0);
    assert forall|k: int| 0 <= k < m.len() implies (#[trigger] octet_value(h[2 * k], h[2 * k + 1]))
        == Some(m[k]) by {
        lemma_plain_hex_index(m, k);
        lemma_octet_of_hex2(m[k]);
    }
    assert(Seq::new(m.len(), |k: int| octet_value(h[2 * k], h[2 * k + 1]).unwrap()) =~= m);
}

} // verus!
