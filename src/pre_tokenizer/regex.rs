//! Segmentation by a regular expression: the spans are its matches.

use vstd::prelude::*;

use crate::text::views;

verus! {

/// Whether `regex` accepts the pattern.
pub uninterp spec fn regex_compiles(pattern: Seq<char>) -> bool;

/// The non-overlapping matches of the pattern in the text, left to right, as
/// `regex` finds them.
pub uninterp spec fn regex_matches_of(pattern: Seq<char>, text: Seq<char>) -> Seq<Seq<char>>;

/// Relies on `regex::Regex::new`: whether the pattern compiles, and the reason
/// when it does not.
#[verifier::external_body]
fn compile(pattern: &str) -> (r: Result<(), String>)
    ensures
        r is Ok <==> regex_compiles(pattern@),
{
    regex::Regex::new(pattern).map(|_| ()).map_err(|e| e.to_string())
}

/// Relies on `regex::Regex::new` and `Regex::find_iter`: the matches of the
/// compiled pattern, left to right.
#[verifier::external_body]
fn find_all(pattern: &str, text: &str) -> (r: Vec<String>)
    requires
        regex_compiles(pattern@),
    ensures
        views(r@) == regex_matches_of(pattern@, text@),
{
    match regex::Regex::new(pattern) {
        Ok(re) => re.find_iter(text).map(|m| m.as_str().to_string()).collect(),
        Err(_) => Vec::new(),
    }
}

/// Splits text into the matches of a pattern.
pub struct RegexPreTokenizer {
    pattern: String,
}

impl RegexPreTokenizer {
    #[verifier::type_invariant]
    spec fn well_formed(self) -> bool {
        regex_compiles(self.pattern@)
    }

    /// The pattern.
    pub closed spec fn spec_pattern(self) -> Seq<char> {
        self.pattern@
    }

    /// Checks the pattern; the error holds the reason it was refused.
    pub fn new(pattern: &str) -> (r: Result<Self, String>)
        ensures
            r is Ok <==> regex_compiles(pattern@),
            r matches Ok(p) ==> p.spec_pattern() == pattern@,
    {
        match compile(pattern) {
            Ok(()) => Ok(RegexPreTokenizer { pattern: pattern.to_owned() }),
            Err(e) => Err(e),
        }
    }

    /// The matches of the pattern in the text.
    pub fn pre_tokenize(&self, text: &str) -> (r: Vec<String>)
        ensures
            views(r@) == regex_matches_of(self.spec_pattern(), text@),
    {
        proof {
            use_type_invariant(self);
        }
        find_all(self.pattern.as_str(), text)
    }
}

} // verus!
