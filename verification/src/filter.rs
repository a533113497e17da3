//! Device filters: OUI / MAC allowlists, SSID and name regexes, company ids.
use vstd::prelude::*;
use crate::error::Error;
use crate::mac::{
    colon_hex, format_mac, format_oui, octets_of, oui_of, parse_mac, parse_oui,
    lemma_octets_text_round_trip,
};
use crate::text::owned;
use crate::pattern::{Pattern, compile_pattern, lite_regex_compiles, lite_regex_error, lite_regex_matches};

verus! {

#[derive(Debug, Clone, PartialEq, Eq)]
pub struct FilterSpec {
    pub oui: Vec<String>,
    pub mac: Vec<String>,
    pub name_regex: Option<String>,
    pub ssid_regex: Option<String>,
    pub company_id: Vec<u16>,
}

impl Default for FilterSpec {
    fn default() -> (s: Self)
        ensures
            s.oui@.len() == 0 && s.mac@.len() == 0 && s.name_regex is None && s.ssid_regex is None
                && s.company_id@.len() == 0,
    {
        FilterSpec { oui: Vec::new(), mac: Vec::new(), name_regex: None, ssid_regex: None, company_id: Vec::new() }
    }
}

#[derive(Debug, Clone, PartialEq)]
pub struct FilterEngine {
    pub ouis: Vec<[u8; 3]>,
    pub macs: Vec<[u8; 6]>,
    pub name_regex: Option<Pattern>,
    pub ssid_regex: Option<Pattern>,
    pub company_ids: Vec<u16>,
}

/// What a filter holds, as plain values.
pub struct FilterView {
    pub ouis: Seq<Seq<u8>>,
    pub macs: Seq<Seq<u8>>,
    pub name_regex: Option<Seq<char>>,
    pub ssid_regex: Option<Seq<char>>,
    pub company_ids: Seq<u16>,
}

/// What a filter specification holds, as plain values.
pub struct FilterSpecView {
    pub oui: Seq<Seq<char>>,
    pub mac: Seq<Seq<char>>,
    pub name_regex: Option<Seq<char>>,
    pub ssid_regex: Option<Seq<char>>,
    pub company_id: Seq<u16>,
}

pub open spec fn oui_views(v: Seq<[u8; 3]>) -> Seq<Seq<u8>> {
    v.map_values(|o: [u8; 3]| o@)
}

pub open spec fn mac_views(v: Seq<[u8; 6]>) -> Seq<Seq<u8>> {
    v.map_values(|m: [u8; 6]| m@)
}

pub open spec fn parsed_ouis(v: Seq<Seq<char>>) -> Seq<Seq<u8>> {
    v.map_values(|t: Seq<char>| octets_of(t, 3).unwrap())
}

pub open spec fn parsed_macs(v: Seq<Seq<char>>) -> Seq<Seq<u8>> {
    v.map_values(|t: Seq<char>| octets_of(t, 6).unwrap())
}

pub open spec fn oui_texts(v: Seq<[u8; 3]>) -> Seq<Seq<char>> {
    v.map_values(|o: [u8; 3]| colon_hex(o@))
}

pub open spec fn mac_texts(v: Seq<[u8; 6]>) -> Seq<Seq<char>> {
    v.map_values(|m: [u8; 6]| colon_hex(m@))
}

pub open spec fn text_seq(v: Seq<String>) -> Seq<Seq<char>> {
    v.map_values(|s: String| s@)
}

pub open spec fn opt_text_view(o: Option<String>) -> Option<Seq<char>> {
    match o {
        Some(s) => Some(s@),
        None => None,
    }
}

pub open spec fn opt_pattern(o: Option<Pattern>) -> Option<Seq<char>> {
    match o {
        Some(p) => Some(p@),
        None => None,
    }
}

impl FilterSpec {
    pub open spec fn spec_view(self) -> FilterSpecView {
        FilterSpecView {
            oui: text_seq(self.oui@),
            mac: text_seq(self.mac@),
            name_regex: opt_text_view(self.name_regex),
            ssid_regex: opt_text_view(self.ssid_regex),
            company_id: self.company_id@,
        }
    }
}

impl FilterEngine {
    pub open spec fn spec_view(self) -> FilterView {
        FilterView {
            ouis: oui_views(self.ouis@),
            macs: mac_views(self.macs@),
            name_regex: opt_pattern(self.name_regex),
            ssid_regex: opt_pattern(self.ssid_regex),
            company_ids: self.company_ids@,
        }
    }
}

/// An empty or missing pattern means no regex filter.
pub open spec fn regex_field(p: Option<Seq<char>>) -> Option<Seq<char>> {
    match p {
        Some(t) => if t.len() == 0 { None } else { Some(t) },
        None => None,
    }
}

pub open spec fn regex_field_ok(p: Option<Seq<char>>) -> bool {
    regex_field(p) matches Some(t) ==> lite_regex_compiles(t)
}

/// The error text a regex field compiles with, if it does not compile.
pub open spec fn regex_field_error(p: Option<Seq<char>>) -> Option<Seq<char>> {
    match regex_field(p) {
        Some(t) => lite_regex_error(t),
        None => None,
    }
}

/// Index of the first text that is not a valid `n`-octet address.
pub open spec fn first_bad(v: Seq<Seq<char>>, n: nat) -> Option<int>
    decreases v.len(),
{
    if v.len() == 0 {
        None
    } else {
        match first_bad(v.drop_last(), n) {
            Some(i) => Some(i),
            None => if octets_of(v.last(), n) is None { Some(v.len() - 1) } else { None },
        }
    }
}

/// The filter a specification compiles to, when it compiles.
pub open spec fn engine_of(s: FilterSpecView) -> Option<FilterView> {
    if first_bad(s.oui, 3) is None && first_bad(s.mac, 6) is None && regex_field_ok(s.name_regex)
        && regex_field_ok(s.ssid_regex) {
        Some(FilterView {
            ouis: parsed_ouis(s.oui),
            macs: parsed_macs(s.mac),
            name_regex: regex_field(s.name_regex),
            ssid_regex: regex_field(s.ssid_regex),
            company_ids: s.company_id,
        })
    } else {
        None
    }
}

/// The error compiling a specification reports: the first OUI text that is not
/// an address, else the first MAC text that is not one, else the error of
/// the name regex, else that of the SSID regex.
pub open spec fn spec_error(s: FilterSpecView, err: Error) -> bool {
    &&& first_bad(s.oui, 3) matches Some(i) ==> (err matches Error::Mac(m) && m@ == s.oui[i])
    &&& first_bad(s.oui, 3) is None ==> (first_bad(s.mac, 6) matches Some(i) ==> (err matches Error::Mac(m) && m@ == s.mac[i]))
    &&& first_bad(s.oui, 3) is None && first_bad(s.mac, 6) is None ==> match regex_field_error(s.name_regex) {
        Some(t) => err matches Error::Regex(m) && m@ == t,
        None => match regex_field_error(s.ssid_regex) {
            Some(t) => err matches Error::Regex(m) && m@ == t,
            None => true,
        },
    }
}

/// The specification a filter prints as.
pub open spec fn spec_of(e: FilterView) -> FilterSpecView {
    FilterSpecView {
        oui: e.ouis.map_values(|o: Seq<u8>| colon_hex(o)),
        mac: e.macs.map_values(|m: Seq<u8>| colon_hex(m)),
        name_regex: e.name_regex,
        ssid_regex: e.ssid_regex,
        company_id: e.company_ids,
    }
}

/// A filter as `from_spec` builds it: 3-octet OUIs, 6-octet MACs, and
/// non-empty patterns that compile.
pub open spec fn view_wf(e: FilterView) -> bool {
    &&& forall|i: int| 0 <= i < e.ouis.len() ==> (#[trigger] e.ouis[i]).len() == 3
    &&& forall|i: int| 0 <= i < e.macs.len() ==> (#[trigger] e.macs[i]).len() == 6
    &&& e.name_regex matches Some(t) ==> t.len() > 0 && lite_regex_compiles(t)
    &&& e.ssid_regex matches Some(t) ==> t.len() > 0 && lite_regex_compiles(t)
}

/// The address passes an allowlist: the list is empty or holds it.
pub open spec fn allowed(list: Seq<Seq<u8>>, a: Seq<u8>) -> bool {
    list.len() == 0 || exists|i: int| 0 <= i < list.len() && list[i] == a
}

/// A regex filter passes: there is none, or the text is present and matches.
pub open spec fn regex_passes(re: Option<Seq<char>>, text: Option<Seq<char>>) -> bool {
    match re {
        None => true,
        Some(p) => match text {
            Some(t) => lite_regex_matches(p, t),
            None => false,
        },
    }
}

pub open spec fn opt_str(o: Option<&str>) -> Option<Seq<char>> {
    match o {
        Some(s) => Some(s@),
        None => None,
    }
}

/// A WiFi frame passes when its transmitter's OUI and MAC pass the allowlists
/// and its SSID matches the SSID regex.
pub open spec fn wifi_passes(e: FilterView, mac: Seq<u8>, ssid: Option<Seq<char>>) -> bool {
    allowed(e.ouis, mac.take(3)) && allowed(e.macs, mac) && regex_passes(e.ssid_regex, ssid)
}

/// An advertisement passes when its address passes the allowlists, its name
/// matches the name regex and its company id is in the company allowlist.
pub open spec fn ble_passes(e: FilterView, mac: Seq<u8>, name: Option<Seq<char>>, company_id: Option<u16>) -> bool {
    &&& allowed(e.ouis, mac.take(3))
    &&& allowed(e.macs, mac)
    &&& regex_passes(e.name_regex, name)
    &&& (e.company_ids.len() == 0 || (company_id matches Some(id) && e.company_ids.contains(id)))
}

pub open spec fn view_is_open(e: FilterView) -> bool {
    e.ouis.len() == 0 && e.macs.len() == 0 && e.name_regex is None && e.ssid_regex is None
        && e.company_ids.len() == 0
}

fn compile_opt(pat: &Option<String>) -> (r: Result<Option<Pattern>, Error>)
    ensures
        regex_field_ok(opt_text_view(*pat)) ==> (r matches Ok(p) && opt_pattern(p) == regex_field(opt_text_view(*pat))),
        regex_field_error(opt_text_view(*pat)) matches Some(t) ==> (r matches Err(Error::Regex(m)) && m@ == t),
{
    match pat {
        None => Ok(None),
        Some(p) => {
            if p.as_str().is_empty() {
                return Ok(None);
            }
            match compile_pattern(p.as_str()) {
                Ok(re) => Ok(Some(re)),
                Err(msg) => Err(Error::Regex(msg)),
            }
        },
    }
}

fn contains_oui(list: &Vec<[u8; 3]>, o: &[u8; 3]) -> (b: bool)
    ensures
        b == exists|i: int| 0 <= i < list@.len() && list@[i]@ == o@,
{
    let mut i: usize = 0;
    while i < list.len()
        invariant
            i <= list@.len(),
            forall|k: int| 0 <= k < i ==> (#[trigger] list@[k])@ != o@,
        decreases list@.len() - i,
    {
        let x = &list[i];
        if x[0] == o[0] && x[1] == o[1] && x[2] == o[2] {
            assert(list@[i as int]@ =~= o@);
            return true;
        }
        assert(list@[i as int]@ != o@) by {
            if list@[i as int]@ == o@ {
                assert(list@[i as int]@[0] == o@[0]);
                assert(list@[i as int]@[1] == o@[1]);
                assert(list@[i as int]@[2] == o@[2]);
            }
        }
        i += 1;
    }
    false
}

fn contains_mac(list: &Vec<[u8; 6]>, m: &[u8; 6]) -> (b: bool)
    ensures
        b == exists|i: int| 0 <= i < list@.len() && list@[i]@ == m@,
{
    let mut i: usize = 0;
    while i < list.len()
        invariant
            i <= list@.len(),
            forall|k: int| 0 <= k < i ==> (#[trigger] list@[k])@ != m@,
        decreases list@.len() - i,
    {
        let x = &list[i];
        if x[0] == m[0] && x[1] == m[1] && x[2] == m[2] && x[3] == m[3] && x[4] == m[4] && x[5] == m[5] {
            assert(list@[i as int]@ =~= m@);
            return true;
        }
        assert(list@[i as int]@ != m@) by {
            if list@[i as int]@ == m@ {
                assert(list@[i as int]@[0] == m@[0]);
                assert(list@[i as int]@[1] == m@[1]);
                assert(list@[i as int]@[2] == m@[2]);
                assert(list@[i as int]@[3] == m@[3]);
                assert(list@[i as int]@[4] == m@[4]);
                assert(list@[i as int]@[5] == m@[5]);
            }
        }
        i += 1;
    }
    false
}

fn contains_u16(list: &Vec<u16>, x: u16) -> (b: bool)
    ensures
        b == list@.contains(x),
{
    let mut i: usize = 0;
    while i < list.len()
        invariant
            i <= list@.len(),
            forall|k: int| 0 <= k < i ==> list@[k] != x,
        decreases list@.len() - i,
    {
        if list[i] == x {
            assert(list@[i as int] == x);
            return true;
        }
        i += 1;
    }
    false
}

impl FilterEngine {
    /// Compiles a filter specification. The first OUI or MAC text that is not a
    /// valid address, or else a regex that does not compile, is reported.
    pub fn from_spec(spec: &FilterSpec) -> (r: Result<Self, Error>)
        ensures
            engine_of(spec.spec_view()) matches Some(v) ==> (r matches Ok(e) && e.spec_view() == v),
            engine_of(spec.spec_view()) is None ==> (r matches Err(err) && spec_error(spec.spec_view(), err)),
    {
        let ghost s = spec.spec_view();
        let mut ouis: Vec<[u8; 3]> = Vec::new();
        let mut i: usize = 0;
        while i < spec.oui.len()
            invariant
                i <= spec.oui@.len(),
                s == spec.spec_view(),
                first_bad(s.oui.take(i as int), 3) is None,
                ouis@.len() == i,
                oui_views(ouis@) == parsed_ouis(s.oui.take(i as int)),
            decreases spec.oui@.len() - i,
        {
            assert(s.oui.take(i + 1).drop_last() == s.oui.take(i as int));
            match parse_oui(spec.oui[i].as_str()) {
                Ok(o) => {
                    let ghost prev = ouis@;
                    assert(octets_of(s.oui[i as int], 3) == Some(o@));
                    ouis.push(o);
                    assert forall|k: int| 0 <= k < i + 1 implies #[trigger] oui_views(ouis@)[k]
                        == parsed_ouis(s.oui.take(i + 1))[k] by {
                        assert(oui_views(ouis@)[k] == ouis@[k]@);
                        assert(parsed_ouis(s.oui.take(i + 1))[k] == octets_of(s.oui.take(i + 1)[k], 3).unwrap());
                        assert(s.oui.take(i + 1)[k] == s.oui[k]);
                        if k < i {
                            assert(ouis@[k] == prev[k]);
                            assert(oui_views(prev)[k] == parsed_ouis(s.oui.take(i as int))[k]);
                            assert(s.oui.take(i as int)[k] == s.oui[k]);
                        }
                    }
                    assert(oui_views(ouis@) =~= parsed_ouis(s.oui.take(i + 1)));
                },
                Err(e) => {
                    proof {
                        lemma_first_bad_prefix(s.oui, i as int, 3);
                    }
                    return Err(e);
                },
            }
            i += 1;
        }
        assert(s.oui.take(spec.oui@.len() as int) == s.oui);
        let mut macs: Vec<[u8; 6]> = Vec::new();
        let mut j: usize = 0;
        while j < spec.mac.len()
            invariant
                j <= spec.mac@.len(),
                s == spec.spec_view(),
                first_bad(s.oui, 3) is None,
                first_bad(s.mac.take(j as int), 6) is None,
                macs@.len() == j,
                mac_views(macs@) == parsed_macs(s.mac.take(j as int)),
            decreases spec.mac@.len() - j,
        {
            assert(s.mac.take(j + 1).drop_last() == s.mac.take(j as int));
            match parse_mac(spec.mac[j].as_str()) {
                Ok(m) => {
                    let ghost prev = macs@;
                    assert(octets_of(s.mac[j as int], 6) == Some(m@));
                    macs.push(m);
                    assert forall|k: int| 0 <= k < j + 1 implies #[trigger] mac_views(macs@)[k]
                        == parsed_macs(s.mac.take(j + 1))[k] by {
                        assert(mac_views(macs@)[k] == macs@[k]@);
                        assert(parsed_macs(s.mac.take(j + 1))[k] == octets_of(s.mac.take(j + 1)[k], 6).unwrap());
                        assert(s.mac.take(j + 1)[k] == s.mac[k]);
                        if k < j {
                            assert(macs@[k] == prev[k]);
                            assert(mac_views(prev)[k] == parsed_macs(s.mac.take(j as int))[k]);
                            assert(s.mac.take(j as int)[k] == s.mac[k]);
                        }
                    }
                    assert(mac_views(macs@) =~= parsed_macs(s.mac.take(j + 1)));
                },
                Err(e) => {
                    proof {
                        lemma_first_bad_prefix(s.mac, j as int, 6);
                    }
                    return Err(e);
                },
            }
            j += 1;
        }
        assert(s.mac.take(spec.mac@.len() as int) == s.mac);
        let name_regex = match compile_opt(&spec.name_regex) {
            Ok(p) => p,
            Err(e) => return Err(e),
        };
        let ssid_regex = match compile_opt(&spec.ssid_regex) {
            Ok(p) => p,
            Err(e) => return Err(e),
        };
        let e = FilterEngine { ouis, macs, name_regex, ssid_regex, company_ids: spec.company_id.clone() };
        assert(e.spec_view() == engine_of(s).unwrap());
        Ok(e)
    }

    /// The specification this filter prints as: lower-case `aa:bb:cc` OUIs and
    /// `aa:bb:cc:dd:ee:ff` MACs, the regex patterns and company ids.
    pub fn to_spec(&self) -> (s: FilterSpec)
        ensures
            s.spec_view() == spec_of(self.spec_view()),
    {
        let mut oui: Vec<String> = Vec::new();
        let mut i: usize = 0;
        while i < self.ouis.len()
            invariant
                i <= self.ouis@.len(),
                oui@.len() == i,
                text_seq(oui@) == oui_texts(self.ouis@.take(i as int)),
            decreases self.ouis@.len() - i,
        {
            let ghost prev = oui@;
            oui.push(format_oui(&self.ouis[i]));
            i += 1;
            assert forall|k: int| 0 <= k < i implies #[trigger] text_seq(oui@)[k] == oui_texts(self.ouis@.take(i as int))[k] by {
                assert(text_seq(oui@)[k] == oui@[k]@);
                assert(oui_texts(self.ouis@.take(i as int))[k] == colon_hex(self.ouis@[k]@));
                if k < i - 1 {
                    assert(oui@[k] == prev[k]);
                    assert(text_seq(prev)[k] == oui_texts(self.ouis@.take(i - 1))[k]);
                }
            }
            assert(text_seq(oui@) =~= oui_texts(self.ouis@.take(i as int)));
        }
        let mut mac: Vec<String> = Vec::new();
        let mut j: usize = 0;
        while j < self.macs.len()
            invariant
                j <= self.macs@.len(),
                mac@.len() == j,
                text_seq(mac@) == mac_texts(self.macs@.take(j as int)),
            decreases self.macs@.len() - j,
        {
            let ghost prev = mac@;
            mac.push(format_mac(&self.macs[j]));
            j += 1;
            assert forall|k: int| 0 <= k < j implies #[trigger] text_seq(mac@)[k] == mac_texts(self.macs@.take(j as int))[k] by {
                assert(text_seq(mac@)[k] == mac@[k]@);
                assert(mac_texts(self.macs@.take(j as int))[k] == colon_hex(self.macs@[k]@));
                if k < j - 1 {
                    assert(mac@[k] == prev[k]);
                    assert(text_seq(prev)[k] == mac_texts(self.macs@.take(j - 1))[k]);
                }
            }
            assert(text_seq(mac@) =~= mac_texts(self.macs@.take(j as int)));
        }
        let name_regex = match &self.name_regex {
            Some(p) => Some(owned(p.as_str())),
            None => None,
        };
        let ssid_regex = match &self.ssid_regex {
            Some(p) => Some(owned(p.as_str())),
            None => None,
        };
        let s = FilterSpec { oui, mac, name_regex, ssid_regex, company_id: self.company_ids.clone() };
        assert(self.ouis@.take(self.ouis@.len() as int) == self.ouis@);
        assert(self.macs@.take(self.macs@.len() as int) == self.macs@);
        assert(s.spec_view().oui =~= spec_of(self.spec_view()).oui);
        assert(s.spec_view().mac =~= spec_of(self.spec_view()).mac);
        s
    }

    /// No filter is set: every frame and advertisement passes.
    pub fn is_open(&self) -> (b: bool)
        ensures
            b == view_is_open(self.spec_view()),
    {
        self.ouis.len() == 0 && self.macs.len() == 0 && self.name_regex.is_none()
            && self.ssid_regex.is_none() && self.company_ids.len() == 0
    }

    pub fn matches_wifi(&self, mac: &[u8; 6], ssid: Option<&str>) -> (b: bool)
        ensures
            b == wifi_passes(self.spec_view(), mac@, opt_str(ssid)),
    {
        if self.ouis.len() != 0 && !contains_oui(&self.ouis, &oui_of(mac)) {
            proof { lemma_allowed_map_3(self.ouis@, mac@.take(3)); }
            return false;
        }
        proof { lemma_allowed_map_3(self.ouis@, mac@.take(3)); }
        if self.macs.len() != 0 && !contains_mac(&self.macs, mac) {
            proof { lemma_allowed_map_6(self.macs@, mac@); }
            return false;
        }
        proof { lemma_allowed_map_6(self.macs@, mac@); }
        match &self.ssid_regex {
            Some(re) => match ssid {
                Some(s) => re.is_match(s),
                None => false,
            },
            None => true,
        }
    }

    pub fn matches_ble(&self, mac: &[u8; 6], name: Option<&str>, company_id: Option<u16>) -> (b: bool)
        ensures
            b == ble_passes(self.spec_view(), mac@, opt_str(name), company_id),
    {
        if self.ouis.len() != 0 && !contains_oui(&self.ouis, &oui_of(mac)) {
            proof { lemma_allowed_map_3(self.ouis@, mac@.take(3)); }
            return false;
        }
        proof { lemma_allowed_map_3(self.ouis@, mac@.take(3)); }
        if self.macs.len() != 0 && !contains_mac(&self.macs, mac) {
            proof { lemma_allowed_map_6(self.macs@, mac@); }
            return false;
        }
        proof { lemma_allowed_map_6(self.macs@, mac@); }
        match &self.name_regex {
            Some(re) => match name {
                Some(s) => {
                    if !re.is_match(s) {
                        return false;
                    }
                },
                None => return false,
            },
            None => {},
        }
        if self.company_ids.len() != 0 {
            match company_id {
                Some(id) => {
                    if !contains_u16(&self.company_ids, id) {
                        return false;
                    }
                },
                None => return false,
            }
        }
        true
    }
}

impl Default for FilterEngine {
    fn default() -> (e: Self)
        ensures
            view_is_open(e.spec_view()),
    {
        FilterEngine { ouis: Vec::new(), macs: Vec::new(), name_regex: None, ssid_regex: None, company_ids: Vec::new() }
    }
}

proof fn lemma_allowed_map_3(list: Seq<[u8; 3]>, a: Seq<u8>)
    ensures
        allowed(list.map_values(|o: [u8; 3]| o@), a) == (list.len() == 0 || exists|i: int| 0 <= i < list.len() && list[i]@ == a),
{
    let l = list.map_values(|o: [u8; 3]| o@);
    if exists|i: int| 0 <= i < list.len() && list[i]@ == a {
        let i = choose|i: int| 0 <= i < list.len() && list[i]@ == a;
        assert(l[i] == a);
    }
    if exists|i: int| 0 <= i < l.len() && l[i] == a {
        let i = choose|i: int| 0 <= i < l.len() && l[i] == a;
        assert(list[i]@ == a);
    }
}

proof fn lemma_allowed_map_6(list: Seq<[u8; 6]>, a: Seq<u8>)
    ensures
        allowed(list.map_values(|o: [u8; 6]| o@), a) == (list.len() == 0 || exists|i: int| 0 <= i < list.len() && list[i]@ == a),
{
    let l = list.map_values(|o: [u8; 6]| o@);
    if exists|i: int| 0 <= i < list.len() && list[i]@ == a {
        let i = choose|i: int| 0 <= i < list.len() && list[i]@ == a;
        assert(l[i] == a);
    }
    if exists|i: int| 0 <= i < l.len() && l[i] == a {
        let i = choose|i: int| 0 <= i < l.len() && l[i] == a;
        assert(list[i]@ == a);
    }
}

proof fn lemma_first_bad_prefix(v: Seq<Seq<char>>, i: int, n: nat)
    requires
        0 <= i < v.len(),
        first_bad(v.take(i), n) is None,
        octets_of(v[i], n) is None,
    ensures
        first_bad(v, n) == Some(i),
    decreases v.len(),
{
    if i == v.len() - 1 {
        assert(v.drop_last() == v.take(i));
    } else {
        assert(v.drop_last().take(i) == v.take(i));
        lemma_first_bad_prefix(v.drop_last(), i, n);
    }
}

proof fn lemma_first_bad_none(v: Seq<Seq<char>>, n: nat)
    requires
        forall|i: int| 0 <= i < v.len() ==> (#[trigger] octets_of(v[i], n)) is Some,
    ensures
        first_bad(v, n) is None,
    decreases v.len(),
{
    if v.len() > 0 {
        let p = v.drop_last();
        assert forall|i: int| 0 <= i < p.len() implies (#[trigger] octets_of(p[i], n)) is Some by {
            assert(p[i] == v[i]);
        }
        lemma_first_bad_none(p, n);
        assert(octets_of(v[v.len() - 1], n) is Some);
    }
}

/// A filter prints as a specification that compiles back to the same filter.
pub proof fn lemma_filter_spec_round_trip(e: FilterView)
    requires
        view_wf(e),
    ensures
        engine_of(spec_of(e)) == Some(e),
{
    let s = spec_of(e);
    assert forall|i: int| 0 <= i < s.oui.len() implies (#[trigger] octets_of(s.oui[i], 3)) == Some(e.ouis[i]) by {
        lemma_octets_text_round_trip(e.ouis[i]);
    }
    assert forall|i: int| 0 <= i < s.mac.len() implies (#[trigger] octets_of(s.mac[i], 6)) == Some(e.macs[i]) by {
        lemma_octets_text_round_trip(e.macs[i]);
    }
    lemma_first_bad_none(s.oui, 3);
    lemma_first_bad_none(s.mac, 6);
    let r = engine_of(s).unwrap();
    assert(r.ouis =~= e.ouis);
    assert(r.macs =~= e.macs);
}

/// An open filter lets every frame and every advertisement through.
pub proof fn lemma_open_filter_passes_all(e: FilterView, mac: Seq<u8>, text: Option<Seq<char>>, company_id: Option<u16>)
    requires
        view_is_open(e),
    ensures
        wifi_passes(e, mac, text),
        ble_passes(e, mac, text, company_id),
{
}

/// The WiFi filter is the AND of its parts: a frame passes exactly when its
/// transmitter's OUI is listed (or no OUI is), its address is listed (or no
/// address is), and, when an SSID regex is set, the frame has an SSID that
/// the regex matches. A frame without an SSID never passes an SSID regex.
pub proof fn lemma_wifi_filter_parts(e: FilterView, mac: Seq<u8>, ssid: Option<Seq<char>>)
    ensures
        wifi_passes(e, mac, ssid) <==> ({
            &&& (e.ouis.len() == 0 || e.ouis.contains(mac.take(3)))
            &&& (e.macs.len() == 0 || e.macs.contains(mac))
            &&& match e.ssid_regex {
                None => true,
                Some(re) => ssid matches Some(t) && lite_regex_matches(re, t),
            }
        }),
        e.ssid_regex is Some && ssid is None ==> !wifi_passes(e, mac, ssid),
{
    assert(allowed(e.ouis, mac.take(3)) <==> (e.ouis.len() == 0 || e.ouis.contains(mac.take(3))));
    assert(allowed(e.macs, mac) <==> (e.macs.len() == 0 || e.macs.contains(mac)));
}

/// The BLE filter is the AND of its parts: the advertiser's OUI and address
/// are listed (or the lists are empty); when a name regex is set, the
/// advertisement has a name the regex matches; when company ids are listed,
/// it carries one of them.
pub proof fn lemma_ble_filter_parts(e: FilterView, mac: Seq<u8>, name: Option<Seq<char>>, company_id: Option<u16>)
    ensures
        ble_passes(e, mac, name, company_id) <==> ({
            &&& (e.ouis.len() == 0 || e.ouis.contains(mac.take(3)))
            &&& (e.macs.len() == 0 || e.macs.contains(mac))
            &&& match e.name_regex {
                None => true,
                Some(re) => name matches Some(t) && lite_regex_matches(re, t),
            }
            &&& (e.company_ids.len() == 0 || (company_id matches Some(id) && e.company_ids.contains(id)))
        }),
        e.name_regex is Some && name is None ==> !ble_passes(e, mac, name, company_id),
        e.company_ids.len() > 0 && company_id is None ==> !ble_passes(e, mac, name, company_id),
{
    assert(allowed(e.ouis, mac.take(3)) <==> (e.ouis.len() == 0 || e.ouis.contains(mac.take(3))));
    assert(allowed(e.macs, mac) <==> (e.macs.len() == 0 || e.macs.contains(mac)));
}

} // verus!
