//! Forbidden-path patterns, matched by the `regex` crate.

use regex::Regex;
use vstd::prelude::*;

verus! {

/// Whether `Regex::new` accepts `pattern`.
pub uninterp spec fn regex_compiles(pattern: Seq<char>) -> bool;

/// Whether the expression that `Regex::new` builds from `pattern` has a match
/// anywhere in `text`, as `Regex::is_match` reports it.
pub uninterp spec fn regex_matches(pattern: Seq<char>, text: Seq<char>) -> bool;

/// `Regex::new` followed by `Regex::is_match`: `None` where the pattern is
/// refused, otherwise whether the compiled expression matches in `text`.
/// Trusted to equal `regex_compiles` and `regex_matches`.
#[verifier::external_body]
fn search(pattern: &str, text: &str) -> (r: Option<bool>)
    ensures
        r == (if regex_compiles(pattern@) {
            Some(regex_matches(pattern@, text@))
        } else {
            None::<bool>
        }),
{
    match Regex::new(pattern) {
        Ok(re) => Some(re.is_match(text)),
        Err(_) => None,
    }
}

/// A pattern that marks library paths as forbidden. Its source is a regular
/// expression that compiles.
pub struct ToxicPattern {
    source: String,
}

impl View for ToxicPattern {
    type V = Seq<char>;

    closed spec fn view(&self) -> Seq<char> {
        self.source@
    }
}

impl ToxicPattern {
    #[verifier::type_invariant]
    closed spec fn compiles(&self) -> bool {
        regex_compiles(self.source@)
    }

    /// The pattern written as `source`, or `None` where `source` is not a
    /// regular expression that compiles.
    pub fn new(source: &str) -> (r: Option<ToxicPattern>)
        ensures
            r is Some <==> regex_compiles(source@),
            r matches Some(p) ==> p@ == source@,
    {
        match search(source, "") {
            Some(_) => Some(ToxicPattern { source: source.to_owned() }),
            None => None,
        }
    }

    /// The pattern's source text.
    pub fn as_str(&self) -> (s: &str)
        ensures
            s@ == self@,
    {
        self.source.as_str()
    }

    /// Whether the pattern matches anywhere in `text`.
    pub fn is_match(&self, text: &str) -> (r: bool)
        ensures
            r == regex_matches(self@, text@),
    {
        proof {
            use_type_invariant(self);
        }
        match search(self.source.as_str(), text) {
            Some(hit) => hit,
            None => false,
        }
    }
}

} // verus!
