//! Regular expressions (regex-lite) used by the SSID and name filters.
use vstd::prelude::*;

verus! {

#[verifier::external_type_specification]
#[verifier::external_body]
pub struct ExLiteRegex(regex_lite::Regex);

/// What `regex_lite::Regex::new` refuses a pattern with: the text of its
/// error, or none when it accepts the pattern.
pub uninterp spec fn lite_regex_error(pattern: Seq<char>) -> Option<Seq<char>>;

/// Whether `regex_lite::Regex::new` accepts a pattern.
pub open spec fn lite_regex_compiles(pattern: Seq<char>) -> bool {
    lite_regex_error(pattern) is None
}

/// Whether the regex compiled from `pattern` matches anywhere in `text`.
pub uninterp spec fn lite_regex_matches(pattern: Seq<char>, text: Seq<char>) -> bool;

/// `Clone` of `regex_lite::Regex`: an independent handle to the same compiled
/// regex. Nothing is claimed of the result (the type is opaque here).
pub assume_specification [<regex_lite::Regex as Clone>::clone](r: &regex_lite::Regex) -> regex_lite::Regex;

/// A compiled regular expression together with the pattern it came from.
#[derive(Debug, Clone)]
pub struct Pattern {
    source: String,
    re: regex_lite::Regex,
}

impl View for Pattern {
    type V = Seq<char>;

    closed spec fn view(&self) -> Seq<char> {
        self.source@
    }
}

/// `regex_lite::Regex::new`: compiles `pattern`; a success keeps the pattern
/// text beside the compiled regex, a failure is turned into the text of the
/// crate's error. The contract names the outcome: it depends on the pattern
/// alone, a success holds that pattern, a failure carries the named text.
#[verifier::external_body]
pub(crate) fn compile_pattern(pattern: &str) -> (r: Result<Pattern, String>)
    ensures
        match lite_regex_error(pattern@) {
            None => r matches Ok(p) && p@ == pattern@,
            Some(m) => r matches Err(e) && e@ == m,
        },
{
    regex_lite::Regex::new(pattern).map(|re| Pattern { source: pattern.to_string(), re }).map_err(|e| e.to_string())
}

impl Pattern {
    /// `regex_lite::Regex::is_match`: whether the regex (compiled from this
    /// pattern's text, the only way a `Pattern` is made) matches anywhere in `text`.
    #[verifier::external_body]
    pub(crate) fn is_match(&self, text: &str) -> (b: bool)
        ensures
            b == lite_regex_matches(self@, text@),
    {
        self.re.is_match(text)
    }

    /// The pattern text.
    pub fn as_str(&self) -> (s: &str)
        ensures
            s@ == self@,
    {
        self.source.as_str()
    }
}

impl PartialEq for Pattern {
    fn eq(&self, other: &Self) -> (r: bool) {
        self.source == other.source
    }
}

impl vstd::std_specs::cmp::PartialEqSpecImpl for Pattern {
    open spec fn obeys_eq_spec() -> bool {
        true
    }

    open spec fn eq_spec(&self, other: &Self) -> bool {
        self@ == other@
    }
}

} // verus!
