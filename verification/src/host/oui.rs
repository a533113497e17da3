//! The vendored OUI list: loading it, finding a manufacturer's prefixes, and
//! merging them into the filter the CLI sends.
use vstd::prelude::*;
use crate::error::Error as ProtoError;
use crate::host::Error;
use crate::mac::{octets_of, parse_oui};
use crate::filter::FilterSpec;
use crate::text::{prefixed_str, string_of, trim_chars, trimmed, chars_of};
use crate::host::vendor_regex::{compile_vendor_regex, regex_compiles, regex_error, regex_matches};

verus! {

/// One row of the OUI list.
#[derive(Debug, Clone)]
pub struct OuiEntry {
    pub oui: [u8; 3],
    pub name: String,
}

/// Cutting `s` at each `\n`: the scan is at `i`, the current line starts at
/// `start`, `lines` are the lines cut so far. A last empty piece is no line.
pub open spec fn split_newlines(s: Seq<char>, start: int, i: int, lines: Seq<Seq<char>>) -> Seq<Seq<char>>
    decreases s.len() - i,
{
    if i < 0 || i >= s.len() {
        if 0 <= start < s.len() {
            lines.push(s.subrange(start, s.len() as int))
        } else {
            lines
        }
    } else if s[i] == '\n' {
        split_newlines(s, i + 1, i + 1, lines.push(s.subrange(start, i)))
    } else {
        split_newlines(s, start, i + 1, lines)
    }
}

/// The lines of a text as `str::lines` gives them, each possibly still ending
/// in `\r` (rows are trimmed before use).
pub open spec fn text_lines(s: Seq<char>) -> Seq<Seq<char>> {
    split_newlines(s, 0, 0, Seq::empty())
}

/// A header row: it starts with `oui` in any letter case.
pub open spec fn is_header(line: Seq<char>) -> bool {
    &&& line.len() >= 3
    &&& (line[0] == 'o' || line[0] == 'O')
    &&& (line[1] == 'u' || line[1] == 'U')
    &&& (line[2] == 'i' || line[2] == 'I')
}

/// Index of the first occurrence of `c`.
pub open spec fn char_index(s: Seq<char>, c: char) -> Option<int>
    decreases s.len(),
{
    if s.len() == 0 {
        None
    } else {
        match char_index(s.drop_last(), c) {
            Some(i) => Some(i),
            None => if s.last() == c { Some(s.len() - 1) } else { None },
        }
    }
}

/// What one line of the list is.
pub enum CsvRow {
    Skip,
    Entry(Seq<u8>, Seq<char>),
    /// A line without a comma (the trimmed line).
    NoComma(Seq<char>),
    /// A prefix that is not three hex octets (the trimmed prefix text).
    BadOui(Seq<char>),
}

/// Line `k`, trimmed: blank lines and a header in the first line are skipped;
/// otherwise the text before the first comma (trimmed) is the OUI and the text
/// after it (trimmed) the name.
pub open spec fn csv_row(k: int, raw: Seq<char>) -> CsvRow {
    let line = trimmed(raw);
    if line.len() == 0 || (k == 0 && is_header(line)) {
        CsvRow::Skip
    } else {
        match char_index(line, ',') {
            None => CsvRow::NoComma(line),
            Some(c) => {
                let o = trimmed(line.take(c));
                match octets_of(o, 3) {
                    Some(b) => CsvRow::Entry(b, trimmed(line.skip(c + 1))),
                    None => CsvRow::BadOui(o),
                }
            },
        }
    }
}

/// The entries of the lines, in order, or the first bad line.
pub open spec fn csv_fold(rows: Seq<Seq<char>>) -> Result<Seq<(Seq<u8>, Seq<char>)>, CsvRow>
    decreases rows.len(),
{
    if rows.len() == 0 {
        Ok(Seq::empty())
    } else {
        match csv_fold(rows.drop_last()) {
            Err(e) => Err(e),
            Ok(es) => match csv_row(rows.len() - 1, rows.last()) {
                CsvRow::Skip => Ok(es),
                CsvRow::Entry(o, n) => Ok(es.push((o, n))),
                bad => Err(bad),
            },
        }
    }
}

pub open spec fn entries_view(v: Seq<OuiEntry>) -> Seq<(Seq<u8>, Seq<char>)> {
    v.map_values(|e: OuiEntry| (e.oui@, e.name@))
}

proof fn lemma_split_prefix(s: Seq<char>, start: int, i: int, lines: Seq<Seq<char>>)
    ensures
        split_newlines(s, start, i, lines).len() >= lines.len(),
        split_newlines(s, start, i, lines).take(lines.len() as int) == lines,
    decreases s.len() - i,
{
    if i < 0 || i >= s.len() {
        if 0 <= start < s.len() {
            assert(lines.push(s.subrange(start, s.len() as int)).take(lines.len() as int) == lines);
        } else {
            assert(lines.take(lines.len() as int) == lines);
        }
    } else if s[i] == '\n' {
        let l2 = lines.push(s.subrange(start, i));
        lemma_split_prefix(s, i + 1, i + 1, l2);
        assert(split_newlines(s, start, i, lines).take(lines.len() as int) == split_newlines(s, start, i, lines).take(
            l2.len() as int,
        ).take(lines.len() as int));
        assert(l2.take(lines.len() as int) == lines);
    } else {
        lemma_split_prefix(s, start, i + 1, lines);
    }
}

proof fn lemma_fold_error_sticks(rows: Seq<Seq<char>>, n: int)
    requires
        0 <= n <= rows.len(),
        csv_fold(rows.take(n)) is Err,
    ensures
        csv_fold(rows) == csv_fold(rows.take(n)),
    decreases rows.len() - n,
{
    if n == rows.len() {
        assert(rows.take(n) == rows);
    } else {
        assert(rows.take(n + 1).drop_last() == rows.take(n));
        lemma_fold_error_sticks(rows, n + 1);
    }
}

/// Index of the first `c` in `cs`.
fn find_char(cs: &Vec<char>, c: char) -> (r: Option<usize>)
    ensures
        r matches Some(j) ==> j < cs@.len() && char_index(cs@, c) == Some(j as int),
        r is None ==> char_index(cs@, c) is None,
{
    let mut i: usize = 0;
    while i < cs.len()
        invariant
            i <= cs@.len(),
            char_index(cs@.take(i as int), c) is None,
        decreases cs@.len() - i,
    {
        assert(cs@.take(i + 1).drop_last() == cs@.take(i as int));
        if cs[i] == c {
            proof {
                lemma_char_index_prefix(cs@, c, i as int);
            }
            return Some(i);
        }
        i += 1;
    }
    assert(cs@.take(cs@.len() as int) == cs@);
    None
}

proof fn lemma_char_index_prefix(s: Seq<char>, c: char, i: int)
    requires
        0 <= i < s.len(),
        char_index(s.take(i), c) is None,
        s[i] == c,
    ensures
        char_index(s, c) == Some(i),
    decreases s.len(),
{
    if i == s.len() - 1 {
        assert(s.drop_last() == s.take(i));
    } else {
        assert(s.drop_last().take(i) == s.take(i));
        lemma_char_index_prefix(s.drop_last(), c, i);
    }
}

fn sub_chars(cs: &Vec<char>, a: usize, b: usize) -> (r: Vec<char>)
    requires
        a <= b <= cs@.len(),
    ensures
        r@ == cs@.subrange(a as int, b as int),
{
    let mut r: Vec<char> = Vec::new();
    let mut k: usize = a;
    while k < b
        invariant
            a <= k <= b <= cs@.len(),
            r@ == cs@.subrange(a as int, k as int),
        decreases b - k,
    {
        r.push(cs[k]);
        k += 1;
        assert(r@ == cs@.subrange(a as int, k as int));
    }
    r
}

/// Reads line `k` of the list (see `csv_row`).
fn read_row(k: usize, raw: &Vec<char>) -> (r: Result<Option<OuiEntry>, Error>)
    ensures
        match csv_row(k as int, raw@) {
            CsvRow::Skip => r matches Ok(None),
            CsvRow::Entry(o, n) => r matches Ok(Some(e)) && e.oui@ == o && e.name@ == n,
            CsvRow::NoComma(l) => r matches Err(Error::Msg(m)) && m@ == "bad oui csv line: "@ + l,
            CsvRow::BadOui(o) => r matches Err(Error::Proto(ProtoError::Mac(m))) && m@ == o,
        },
{
    let line = trim_chars(raw);
    if line.len() == 0 {
        return Ok(None);
    }
    if k == 0 && line.len() >= 3 && (line[0] == 'o' || line[0] == 'O') && (line[1] == 'u' || line[1] == 'U') && (
    line[2] == 'i' || line[2] == 'I') {
        return Ok(None);
    }
    match find_char(&line, ',') {
        None => {
            let text = string_of(line.as_slice());
            Err(Error::Msg(prefixed_str("bad oui csv line: ", text.as_str())))
        },
        Some(c) => {
            let head = sub_chars(&line, 0, c);
            assert(head@ == line@.take(c as int));
            let tail = sub_chars(&line, c + 1, line.len());
            assert(tail@ == line@.skip(c + 1));
            let o = trim_chars(&head);
            let n = trim_chars(&tail);
            let o_text = string_of(o.as_slice());
            match parse_oui(o_text.as_str()) {
                Ok(oui) => Ok(Some(OuiEntry { oui, name: string_of(n.as_slice()) })),
                Err(e) => Err(Error::Proto(e)),
            }
        },
    }
}

/// Loads the OUI list: one `prefix,name` row per line, an optional header
/// line first, blank lines ignored. The first bad row fails the load.
pub fn load_oui_csv(csv: &str) -> (r: Result<Vec<OuiEntry>, Error>)
    ensures
        match csv_fold(text_lines(csv@)) {
            Ok(es) => r matches Ok(v) && entries_view(v@) == es,
            Err(CsvRow::NoComma(l)) => r matches Err(Error::Msg(m)) && m@ == "bad oui csv line: "@ + l,
            Err(CsvRow::BadOui(o)) => r matches Err(Error::Proto(ProtoError::Mac(m))) && m@ == o,
            Err(_) => true,
        },
{
    let s = chars_of(csv);
    let ghost lines = text_lines(csv@);
    let mut out: Vec<OuiEntry> = Vec::new();
    let ghost mut done: Seq<Seq<char>> = Seq::empty();
    let mut cur: Vec<char> = Vec::new();
    let mut k: usize = 0;
    let mut start: usize = 0;
    let mut i: usize = 0;
    assert(entries_view(out@) =~= Seq::<(Seq<u8>, Seq<char>)>::empty());
    while i < s.len()
        invariant
            s@ == csv@,
            lines == text_lines(csv@),
            0 <= start <= i <= s@.len(),
            cur@ == s@.subrange(start as int, i as int),
            split_newlines(s@, start as int, i as int, done) == lines,
            k == done.len(),
            k <= i,
            csv_fold(done) == Ok::<Seq<(Seq<u8>, Seq<char>)>, CsvRow>(entries_view(out@)),
        decreases s@.len() - i,
    {
        if s[i] == '\n' {
            let ghost next = done.push(cur@);
            proof {
                lemma_split_prefix(s@, i + 1, i + 1, next);
                assert(lines.take(next.len() as int) == next);
                assert(next.drop_last() == done);
            }
            match read_row(k, &cur) {
                Ok(Some(e)) => {
                    let ghost old_out = out@;
                    out.push(e);
                    assert(entries_view(out@) =~= entries_view(old_out).push((e.oui@, e.name@)));
                },
                Ok(None) => {},
                Err(e) => {
                    proof {
                        lemma_fold_error_sticks(lines, next.len() as int);
                    }
                    return Err(e);
                },
            }
            proof {
                done = next;
            }
            k += 1;
            cur = Vec::new();
            start = i + 1;
        } else {
            cur.push(s[i]);
        }
        i += 1;
        assert(cur@ =~= s@.subrange(start as int, i as int));
    }
    if start < s.len() {
        let ghost next = done.push(cur@);
        assert(lines == next);
        assert(next.drop_last() == done);
        match read_row(k, &cur) {
            Ok(Some(e)) => {
                let ghost old_out = out@;
                out.push(e);
                assert(entries_view(out@) =~= entries_view(old_out).push((e.oui@, e.name@)));
            },
            Ok(None) => {},
            Err(e) => return Err(e),
        }
    }
    Ok(out)
}

/// Lexicographic order of OUIs, byte by byte.
pub open spec fn oui_lt(a: Seq<u8>, b: Seq<u8>) -> bool {
    a[0] < b[0] || (a[0] == b[0] && (a[1] < b[1] || (a[1] == b[1] && a[2] < b[2])))
}

pub open spec fn oui_list(v: Seq<[u8; 3]>) -> Seq<Seq<u8>> {
    v.map_values(|o: [u8; 3]| o@)
}

/// Strictly increasing, hence without repeats.
pub open spec fn ouis_sorted(v: Seq<Seq<u8>>) -> bool {
    forall|i: int, j: int| 0 <= i < j < v.len() ==> oui_lt(#[trigger] v[i], #[trigger] v[j])
}

/// Whether some entry of the list has prefix `o` and a name the pattern matches.
pub open spec fn vendor_has(db: Seq<(Seq<u8>, Seq<char>)>, pattern: Seq<char>, o: Seq<u8>) -> bool {
    exists|i: int| 0 <= i < db.len() && #[trigger] db[i].0 == o && regex_matches(pattern, db[i].1)
}

fn oui_less(a: &[u8; 3], b: &[u8; 3]) -> (r: bool)
    ensures
        r == oui_lt(a@, b@),
{
    a[0] < b[0] || (a[0] == b[0] && (a[1] < b[1] || (a[1] == b[1] && a[2] < b[2])))
}

/// Adds an OUI to a strictly increasing list, keeping it so.
fn insert_oui(v: &mut Vec<[u8; 3]>, o: [u8; 3])
    requires
        ouis_sorted(oui_list(old(v)@)),
    ensures
        ouis_sorted(oui_list(final(v)@)),
        forall|x: Seq<u8>| oui_list(final(v)@).contains(x) <==> (oui_list(old(v)@).contains(x) || x == o@),
{
    let ghost l0 = oui_list(v@);
    let mut i: usize = 0;
    while i < v.len() && oui_less(&v[i], &o)
        invariant
            i <= v@.len(),
            l0 == oui_list(v@),
            forall|k: int| 0 <= k < i ==> oui_lt(#[trigger] l0[k], o@),
        decreases v@.len() - i,
    {
        i += 1;
    }
    if i < v.len() && !oui_less(&o, &v[i]) {
        assert(l0[i as int] =~= o@);
        assert forall|x: Seq<u8>| oui_list(v@).contains(x) <==> (l0.contains(x) || x == o@) by {
            if x == o@ {
                assert(l0[i as int] == x);
            }
        }
        return;
    }
    v.insert(i, o);
    let ghost l1 = oui_list(v@);
    assert(l1 =~= l0.insert(i as int, o@));
    assert forall|a: int, b: int| 0 <= a < b < l1.len() implies oui_lt(#[trigger] l1[a], #[trigger] l1[b]) by {
        if b < i {
        } else if b == i {
            assert(l1[a] == l0[a]);
        } else if a == i {
            assert(l1[b] == l0[b - 1]);
            if b - 1 > i {
                assert(oui_lt(l0[i as int], l0[b - 1]));
            }
        } else if a < i {
            assert(l1[b] == l0[b - 1]);
        } else {
            assert(l1[a] == l0[a - 1]);
            assert(l1[b] == l0[b - 1]);
        }
    }
    assert forall|x: Seq<u8>| l1.contains(x) <==> (l0.contains(x) || x == o@) by {
        if l1.contains(x) {
            let k = choose|k: int| 0 <= k < l1.len() && l1[k] == x;
            if k < i {
                assert(l0[k] == x);
            } else if k > i {
                assert(l0[k - 1] == x);
            }
        }
        if l0.contains(x) {
            let k = choose|k: int| 0 <= k < l0.len() && l0[k] == x;
            if k < i {
                assert(l1[k] == x);
            } else {
                assert(l1[k + 1] == x);
            }
        }
        if x == o@ {
            assert(l1[i as int] == x);
        }
    }
}

/// The prefixes of the list entries whose name the manufacturer regex matches,
/// in increasing order without repeats. A pattern the regex crate refuses is a
/// regex error; a pattern that matches no entry is an error too.
pub fn ouis_for_manufacturer(db: &[OuiEntry], pattern: &str) -> (r: Result<Vec<[u8; 3]>, Error>)
    ensures
        regex_error(pattern@) matches Some(t) ==> (r matches Err(Error::Regex(m)) && m@ == t),
        regex_compiles(pattern@) && (forall|o: Seq<u8>| !vendor_has(entries_view(db@), pattern@, o)) ==> (r matches Err(
            Error::Msg(m),
        ) && m@ == "no OUI matched manufacturer regex "@ + pattern@),
        regex_compiles(pattern@) && (exists|o: Seq<u8>| vendor_has(entries_view(db@), pattern@, o)) ==> (r matches Ok(v)
            && ouis_sorted(oui_list(v@)) && forall|o: Seq<u8>| #[trigger] oui_list(v@).contains(o) <==> vendor_has(
            entries_view(db@),
            pattern@,
            o,
        )),
{
    let re = match compile_vendor_regex(pattern) {
        Ok(re) => re,
        Err(msg) => return Err(Error::Regex(msg)),
    };
    let ghost dbv = entries_view(db@);
    let mut found: Vec<[u8; 3]> = Vec::new();
    let mut i: usize = 0;
    while i < db.len()
        invariant
            i <= db@.len(),
            dbv == entries_view(db@),
            re@ == pattern@,
            ouis_sorted(oui_list(found@)),
            forall|o: Seq<u8>| #[trigger] oui_list(found@).contains(o) <==> vendor_has(dbv.take(i as int), pattern@, o),
        decreases db@.len() - i,
    {
        let e = &db[i];
        let hit = re.is_match(e.name.as_str());
        assert(dbv[i as int] == (e.oui@, e.name@));
        if hit {
            insert_oui(&mut found, e.oui);
        }
        assert forall|o: Seq<u8>| #[trigger] oui_list(found@).contains(o) <==> vendor_has(dbv.take(i + 1), pattern@, o) by {
            let pre = dbv.take(i as int);
            let nxt = dbv.take(i + 1);
            if vendor_has(nxt, pattern@, o) {
                let k = choose|k: int| 0 <= k < nxt.len() && #[trigger] nxt[k].0 == o && regex_matches(pattern@, nxt[k].1);
                if k < i {
                    assert(pre[k] == nxt[k]);
                }
            }
            if vendor_has(pre, pattern@, o) {
                let k = choose|k: int| 0 <= k < pre.len() && #[trigger] pre[k].0 == o && regex_matches(pattern@, pre[k].1);
                assert(nxt[k] == pre[k]);
            }
            if hit && o == e.oui@ {
                assert(nxt[i as int].0 == o);
            }
        }
        i += 1;
    }
    assert(dbv.take(db@.len() as int) == dbv);
    if found.len() == 0 {
        assert forall|o: Seq<u8>| !vendor_has(dbv, pattern@, o) by {
            if vendor_has(dbv, pattern@, o) {
                assert(!oui_list(found@).contains(o));
            }
        }
        return Err(Error::Msg(prefixed_str("no OUI matched manufacturer regex ", pattern)));
    }
    assert(oui_list(found@).contains(oui_list(found@)[0]));
    Ok(found)
}

/// Lexicographic order of texts, character by character: the order of
/// `String` (UTF-8 bytes sort as their characters do).
pub open spec fn text_lt(a: Seq<char>, b: Seq<char>) -> bool
    decreases a.len(),
{
    if a.len() == 0 {
        b.len() > 0
    } else if b.len() == 0 {
        false
    } else if a[0] != b[0] {
        a[0] < b[0]
    } else {
        text_lt(a.drop_first(), b.drop_first())
    }
}

proof fn lemma_text_lt_irreflexive(a: Seq<char>)
    ensures
        !text_lt(a, a),
    decreases a.len(),
{
    if a.len() > 0 {
        lemma_text_lt_irreflexive(a.drop_first());
    }
}

proof fn lemma_text_lt_transitive(a: Seq<char>, b: Seq<char>, c: Seq<char>)
    requires
        text_lt(a, b),
        text_lt(b, c),
    ensures
        text_lt(a, c),
    decreases a.len(),
{
    if a.len() > 0 && b.len() > 0 && c.len() > 0 && a[0] == b[0] && b[0] == c[0] {
        lemma_text_lt_transitive(a.drop_first(), b.drop_first(), c.drop_first());
    }
}

proof fn lemma_text_lt_total(a: Seq<char>, b: Seq<char>)
    ensures
        a == b || text_lt(a, b) || text_lt(b, a),
    decreases a.len(),
{
    if a.len() > 0 && b.len() > 0 && a[0] == b[0] {
        lemma_text_lt_total(a.drop_first(), b.drop_first());
        if a.drop_first() == b.drop_first() {
            assert(a =~= seq![a[0]] + a.drop_first());
            assert(b =~= seq![b[0]] + b.drop_first());
        }
    } else if a.len() == 0 && b.len() == 0 {
        assert(a =~= b);
    }
}

fn text_less(a: &String, b: &String) -> (r: bool)
    ensures
        r == text_lt(a@, b@),
{
    let x = chars_of(a.as_str());
    let y = chars_of(b.as_str());
    let mut i: usize = 0;
    assert(x@.skip(0) =~= x@);
    assert(y@.skip(0) =~= y@);
    while i < x.len() && i < y.len()
        invariant
            i <= x@.len(),
            i <= y@.len(),
            x@ == a@,
            y@ == b@,
            text_lt(a@, b@) == text_lt(x@.skip(i as int), y@.skip(i as int)),
        decreases x@.len() - i,
    {
        assert(x@.skip(i + 1) == x@.skip(i as int).drop_first());
        assert(y@.skip(i + 1) == y@.skip(i as int).drop_first());
        if x[i] != y[i] {
            return x[i] < y[i];
        }
        i += 1;
    }
    i == x.len() && i < y.len()
}

pub open spec fn texts_sorted(v: Seq<Seq<char>>) -> bool {
    forall|i: int, j: int| 0 <= i < j < v.len() ==> text_lt(#[trigger] v[i], #[trigger] v[j])
}

pub open spec fn text_list(v: Seq<String>) -> Seq<Seq<char>> {
    v.map_values(|s: String| s@)
}

/// Adds a text to a strictly increasing list, keeping it so.
fn insert_text(v: &mut Vec<String>, s: String)
    requires
        texts_sorted(text_list(old(v)@)),
    ensures
        texts_sorted(text_list(final(v)@)),
        forall|x: Seq<char>| text_list(final(v)@).contains(x) <==> (text_list(old(v)@).contains(x) || x == s@),
{
    let ghost l0 = text_list(v@);
    let mut i: usize = 0;
    while i < v.len() && text_less(&v[i], &s)
        invariant
            i <= v@.len(),
            l0 == text_list(v@),
            forall|k: int| 0 <= k < i ==> text_lt(#[trigger] l0[k], s@),
        decreases v@.len() - i,
    {
        i += 1;
    }
    if i < v.len() && !text_less(&s, &v[i]) {
        proof {
            lemma_text_lt_total(l0[i as int], s@);
        }
        assert forall|x: Seq<char>| text_list(v@).contains(x) <==> (l0.contains(x) || x == s@) by {
            if x == s@ {
                assert(l0[i as int] == x);
            }
        }
        return;
    }
    let ghost sv = s@;
    v.insert(i, s);
    let ghost l1 = text_list(v@);
    assert(l1 =~= l0.insert(i as int, sv));
    proof {
        if (i as int) < l0.len() {
            lemma_text_lt_total(l0[i as int], sv);
            if l0[i as int] == sv {
                lemma_text_lt_irreflexive(sv);
            }
        }
    }
    assert forall|a: int, b: int| 0 <= a < b < l1.len() implies text_lt(#[trigger] l1[a], #[trigger] l1[b]) by {
        if b < i {
        } else if b == i {
            assert(l1[a] == l0[a]);
        } else if a == i {
            assert(l1[b] == l0[b - 1]);
            if b - 1 > i {
                lemma_text_lt_transitive(sv, l0[i as int], l0[b - 1]);
            }
        } else if a < i {
            assert(l1[b] == l0[b - 1]);
        } else {
            assert(l1[a] == l0[a - 1]);
            assert(l1[b] == l0[b - 1]);
        }
    }
    assert forall|x: Seq<char>| l1.contains(x) <==> (l0.contains(x) || x == sv) by {
        if l1.contains(x) {
            let k = choose|k: int| 0 <= k < l1.len() && l1[k] == x;
            if k < i {
                assert(l0[k] == x);
            } else if k > i {
                assert(l0[k - 1] == x);
            }
        }
        if l0.contains(x) {
            let k = choose|k: int| 0 <= k < l0.len() && l0[k] == x;
            if k < i {
                assert(l1[k] == x);
            } else {
                assert(l1[k + 1] == x);
            }
        }
        if x == sv {
            assert(l1[i as int] == x);
        }
    }
}

/// Upper-case hexadecimal digit for a value below 16.
pub open spec fn hex_char_upper(n: nat) -> char {
    if n < 10 {
        ('0' as u32 + n) as char
    } else {
        ('A' as u32 + n - 10) as char
    }
}

pub open spec fn hex2_upper(b: u8) -> Seq<char> {
    seq![hex_char_upper((b / 16) as nat), hex_char_upper((b % 16) as nat)]
}

/// Bytes as upper-case hex digits without separators.
pub open spec fn upper_hex(bytes: Seq<u8>) -> Seq<char>
    decreases bytes.len(),
{
    if bytes.len() == 0 {
        Seq::empty()
    } else {
        upper_hex(bytes.drop_last()) + hex2_upper(bytes.last())
    }
}

/// An OUI as the filter takes it from a manufacturer lookup: six upper-case
/// hex digits without separators.
pub open spec fn prefix_text(o: Seq<u8>) -> Seq<char> {
    upper_hex(o)
}

fn hex_char_upper_exec(n: u8) -> (c: char)
    requires
        n < 16,
    ensures
        c == hex_char_upper(n as nat),
{
    let table: [char; 16] = ['0', '1', '2', '3', '4', '5', '6', '7', '8', '9', 'A', 'B', 'C', 'D', 'E', 'F'];
    let c = table[n as usize];
    assert(c == hex_char_upper(n as nat));
    c
}

fn prefix_string(o: &[u8; 3]) -> (s: String)
    ensures
        s@ == prefix_text(o@),
{
    let mut cs: Vec<char> = Vec::new();
    let mut k: usize = 0;
    while k < 3
        invariant
            k <= 3,
            cs@ == upper_hex(o@.take(k as int)),
        decreases 3 - k,
    {
        assert(o@.take(k + 1).drop_last() == o@.take(k as int));
        cs.push(hex_char_upper_exec(o[k] / 16));
        cs.push(hex_char_upper_exec(o[k] % 16));
        k += 1;
        assert(cs@ =~= upper_hex(o@.take(k as int)));
    }
    assert(o@.take(3) == o@);
    string_of(cs.as_slice())
}

/// The OUI texts the merged filter allows: the given ones and the prefixes
/// of the manufacturer's entries.
pub open spec fn wanted_oui(given: Seq<Seq<char>>, manufacturer: Option<Seq<char>>, db: Seq<(Seq<u8>, Seq<char>)>, x: Seq<char>) -> bool {
    given.contains(x) || (manufacturer matches Some(p) && exists|o: Seq<u8>| vendor_has(db, p, o) && x == #[trigger] prefix_text(o))
}

pub open spec fn opt_texts(v: Option<Vec<String>>) -> Seq<Seq<char>> {
    match v {
        Some(l) => text_list(l@),
        None => Seq::empty(),
    }
}

pub open spec fn opt_ids(v: Option<Vec<u16>>) -> Seq<u16> {
    match v {
        Some(l) => l@,
        None => Seq::empty(),
    }
}

/// The manufacturer lookup succeeds (or there is none).
pub open spec fn lookup_ok(manufacturer: Option<&str>, db: Seq<(Seq<u8>, Seq<char>)>) -> bool {
    match manufacturer {
        None => true,
        Some(p) => regex_compiles(p@) && exists|o: Seq<u8>| vendor_has(db, p@, o),
    }
}

pub open spec fn opt_pattern_text(m: Option<&str>) -> Option<Seq<char>> {
    match m {
        Some(p) => Some(p@),
        None => None,
    }
}

/// What merging the filter options gives: a regex error when the
/// manufacturer pattern does not compile, an error when it matches no entry;
/// otherwise no filter when nothing is set, or the filter whose OUI list is
/// the given prefixes plus those of the manufacturer, sorted without repeats,
/// and whose other fields are taken as given.
pub open spec fn merge_result(
    oui: Option<Vec<String>>,
    mac: Option<Vec<String>>,
    name_regex: Option<String>,
    ssid_regex: Option<String>,
    company_id: Option<Vec<u16>>,
    manufacturer_regex: Option<&str>,
    db: Seq<(Seq<u8>, Seq<char>)>,
    r: Result<Option<FilterSpec>, Error>,
) -> bool {
    &&& match manufacturer_regex {
        Some(p) => {
            &&& (regex_error(p@) matches Some(t) ==> (r matches Err(Error::Regex(m)) && m@ == t))
            &&& (regex_compiles(p@) && forall|o: Seq<u8>| !vendor_has(db, p@, o)) ==> (r matches Err(Error::Msg(m)) && m@
                == "no OUI matched manufacturer regex "@ + p@)
        },
        None => true,
    }
    &&& lookup_ok(manufacturer_regex, db) ==> ({
        let given = opt_texts(oui);
        let mp = opt_pattern_text(manufacturer_regex);
        let empty = (forall|x: Seq<char>| !#[trigger] wanted_oui(given, mp, db, x)) && opt_texts(mac).len() == 0
            && name_regex is None && ssid_regex is None && opt_ids(company_id).len() == 0;
        r matches Ok(res) && match res {
            None => empty,
            Some(spec) => {
                &&& !empty
                &&& texts_sorted(text_list(spec.oui@))
                &&& forall|x: Seq<char>| #[trigger] text_list(spec.oui@).contains(x) <==> wanted_oui(given, mp, db, x)
                &&& text_list(spec.mac@) == opt_texts(mac)
                &&& spec.name_regex == name_regex
                &&& spec.ssid_regex == ssid_regex
                &&& spec.company_id@ == opt_ids(company_id)
            },
        }
    })
}

/// Builds the filter the CLI sends from its options: the OUI list is the given
/// prefixes plus those of the manufacturer (if any), sorted without repeats;
/// the other fields are taken as given. A filter with nothing in it is none.
/// A failed manufacturer lookup is the error (see `ouis_for_manufacturer`).
pub fn merge_filters(
    oui: Option<Vec<String>>,
    mac: Option<Vec<String>>,
    name_regex: Option<String>,
    ssid_regex: Option<String>,
    company_id: Option<Vec<u16>>,
    manufacturer_regex: Option<&str>,
    db: &[OuiEntry],
) -> (r: Result<Option<FilterSpec>, Error>)
    ensures
        merge_result(oui, mac, name_regex, ssid_regex, company_id, manufacturer_regex, entries_view(db@), r),
{
    let ghost dbv = entries_view(db@);
    let ghost given = opt_texts(oui);
    let mut list: Vec<String> = Vec::new();
    match &oui {
        Some(v) => {
            let mut i: usize = 0;
            while i < v.len()
                invariant
                    i <= v@.len(),
                    given == text_list(v@),
                    texts_sorted(text_list(list@)),
                    forall|x: Seq<char>| #[trigger] text_list(list@).contains(x) <==> given.take(i as int).contains(x),
                decreases v@.len() - i,
            {
                let t = v[i].clone();
                insert_text(&mut list, t);
                assert forall|x: Seq<char>| #[trigger] text_list(list@).contains(x) <==> given.take(i + 1).contains(x) by {
                    let nxt = given.take(i + 1);
                    let pre = given.take(i as int);
                    if nxt.contains(x) {
                        let k = choose|k: int| 0 <= k < nxt.len() && nxt[k] == x;
                        if k < i {
                            assert(pre[k] == x);
                        }
                    }
                    if pre.contains(x) {
                        let k = choose|k: int| 0 <= k < pre.len() && pre[k] == x;
                        assert(nxt[k] == x);
                    }
                    if x == given[i as int] {
                        assert(nxt[i as int] == x);
                    }
                }
                i += 1;
            }
            assert(given.take(v@.len() as int) == given);
        },
        None => {},
    }
    let ghost base = text_list(list@);
    match manufacturer_regex {
        Some(p) => {
            let found = match ouis_for_manufacturer(db, p) {
                Ok(f) => f,
                Err(e) => return Err(e),
            };
            let mut j: usize = 0;
            while j < found.len()
                invariant
                    j <= found@.len(),
                    texts_sorted(text_list(list@)),
                    forall|o: Seq<u8>| #[trigger] oui_list(found@).contains(o) <==> vendor_has(dbv, p@, o),
                    forall|x: Seq<char>| #[trigger] text_list(list@).contains(x) <==> (base.contains(x) || exists|k: int|
                        0 <= k < j && x == prefix_text(oui_list(found@)[k])),
                decreases found@.len() - j,
            {
                let t = prefix_string(&found[j]);
                insert_text(&mut list, t);
                assert forall|x: Seq<char>| #[trigger] text_list(list@).contains(x) <==> (base.contains(x) || exists|k: int|
                    0 <= k < j + 1 && x == prefix_text(oui_list(found@)[k])) by {
                    if x == prefix_text(oui_list(found@)[j as int]) {
                        assert(0 <= j < j + 1);
                    }
                    if exists|k: int| 0 <= k < j + 1 && x == prefix_text(oui_list(found@)[k]) {
                        let k = choose|k: int| 0 <= k < j + 1 && x == prefix_text(oui_list(found@)[k]);
                        if k < j {
                            assert(exists|k2: int| 0 <= k2 < j && x == prefix_text(oui_list(found@)[k2]));
                        }
                    }
                }
                j += 1;
            }
            assert forall|x: Seq<char>| #[trigger] text_list(list@).contains(x) <==> wanted_oui(given, Some(p@), dbv, x) by {
                if exists|k: int| 0 <= k < found@.len() && x == prefix_text(oui_list(found@)[k]) {
                    let k = choose|k: int| 0 <= k < found@.len() && x == prefix_text(oui_list(found@)[k]);
                    let o = oui_list(found@)[k];
                    assert(oui_list(found@).contains(o));
                    assert(vendor_has(dbv, p@, o) && x == prefix_text(o));
                }
                if exists|o: Seq<u8>| vendor_has(dbv, p@, o) && x == #[trigger] prefix_text(o) {
                    let o = choose|o: Seq<u8>| vendor_has(dbv, p@, o) && x == #[trigger] prefix_text(o);
                    assert(oui_list(found@).contains(o));
                    let k = choose|k: int| 0 <= k < oui_list(found@).len() && oui_list(found@)[k] == o;
                    assert(0 <= k < found@.len() && x == prefix_text(oui_list(found@)[k]));
                }
            }
        },
        None => {
            assert forall|x: Seq<char>| #[trigger] text_list(list@).contains(x) <==> wanted_oui(given, None, dbv, x) by {}
        },
    }
    let macs: Vec<String> = match mac {
        Some(v) => v,
        None => Vec::new(),
    };
    let ids: Vec<u16> = match company_id {
        Some(v) => v,
        None => Vec::new(),
    };
    assert(text_list(macs@) == opt_texts(mac));
    let none_left = list.len() == 0 && macs.len() == 0 && name_regex.is_none() && ssid_regex.is_none() && ids.len() == 0;
    if none_left {
        assert forall|x: Seq<char>| !wanted_oui(given, opt_pattern_text(manufacturer_regex), dbv, x) by {
            if wanted_oui(given, opt_pattern_text(manufacturer_regex), dbv, x) {
                assert(text_list(list@).contains(x));
            }
        }
        return Ok(None);
    }
    proof {
        if list@.len() > 0 {
            assert(text_list(list@).contains(text_list(list@)[0]));
        }
    }
    Ok(Some(FilterSpec { oui: list, mac: macs, name_regex, ssid_regex, company_id: ids }))
}

} // verus!
