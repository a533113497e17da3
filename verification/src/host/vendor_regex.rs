//! Regular expressions (the `regex` crate) for matching manufacturer names.
use vstd::prelude::*;

verus! {

#[verifier::external_type_specification]
#[verifier::external_body]
pub struct ExRegex(regex::Regex);

/// What `regex::Regex::new` refuses a pattern with (a syntax error, or a
/// regex over its default size limit): the text of its error, or none when
/// it accepts the pattern.
pub uninterp spec fn regex_error(pattern: Seq<char>) -> Option<Seq<char>>;

/// Whether `regex::Regex::new` accepts a pattern.
pub open spec fn regex_compiles(pattern: Seq<char>) -> bool {
    regex_error(pattern) is None
}

/// Whether the regex compiled from `pattern` matches anywhere in `text`.
pub uninterp spec fn regex_matches(pattern: Seq<char>, text: Seq<char>) -> bool;

/// A compiled manufacturer regex together with the pattern it came from.
pub struct VendorRegex {
    source: String,
    re: regex::Regex,
}

impl View for VendorRegex {
    type V = Seq<char>;

    closed spec fn view(&self) -> Seq<char> {
        self.source@
    }
}

/// `regex::Regex::new`: compiles `pattern`; a failure is turned into the
/// text of the crate's error. The contract names the outcome: it depends on
/// the pattern alone, a success holds that pattern, a failure carries the
/// named text.
#[verifier::external_body]
pub(crate) fn compile_vendor_regex(pattern: &str) -> (r: Result<VendorRegex, String>)
    ensures
        match regex_error(pattern@) {
            None => r matches Ok(p) && p@ == pattern@,
            Some(m) => r matches Err(e) && e@ == m,
        },
{
    regex::Regex::new(pattern).map(|re| VendorRegex { source: pattern.to_string(), re }).map_err(|e| e.to_string())
}

impl VendorRegex {
    /// `regex::Regex::is_match`: whether the regex (compiled from this value's
    /// pattern text, the only way one is made) matches anywhere in `text`.
    #[verifier::external_body]
    pub(crate) fn is_match(&self, text: &str) -> (b: bool)
        ensures
            b == regex_matches(self@, text@),
    {
        self.re.is_match(text)
    }
}

} // verus!
