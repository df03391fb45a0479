//! Regular-expression matching for the boolean filter's custom
//! true-pattern, behind trusted declarations of the regex crate.

use vstd::prelude::*;

verus! {

#[verifier::external_type_specification]
#[verifier::external_body]
pub struct ExRegex(regex::Regex);

/// Whether `regex::Regex::new` accepts this pattern.
pub uninterp spec fn regex_valid(pattern: Seq<char>) -> bool;

/// Whether the compiled pattern matches anywhere in the text, as
/// `regex::Regex::is_match` decides it; a function of pattern and text
/// alone.
pub uninterp spec fn regex_match(pattern: Seq<char>, text: Seq<char>) -> bool;

/// A compiled matcher, kept together with the pattern it was compiled
/// from; only `new` builds one, so the two always agree.
pub struct TrueMatcher {
    pattern: Vec<char>,
    re: regex::Regex,
}

impl View for TrueMatcher {
    type V = Seq<char>;

    closed spec fn view(&self) -> Seq<char> {
        self.pattern@
    }
}

impl TrueMatcher {
    /// Relies on `regex::Regex::new`: it returns `Ok` exactly for the
    /// patterns the regex crate accepts; the matcher keeps that pattern.
    #[verifier::external_body]
    pub fn new(pattern: &Vec<char>) -> (r: Option<TrueMatcher>)
        ensures
            (r is Some) == regex_valid(pattern@),
            r matches Some(m) ==> m@ == pattern@,
    {
        let p: String = pattern.iter().collect();
        match regex::Regex::new(&p) {
            Ok(re) => Some(TrueMatcher { pattern: pattern.clone(), re }),
            Err(_) => None,
        }
    }

    /// Relies on `regex::Regex::is_match`: whether the pattern matches
    /// anywhere in the text, a deterministic function of the two.
    #[verifier::external_body]
    pub fn is_match(&self, text: &Vec<char>) -> (r: bool)
        ensures
            r == regex_match(self@, text@),
    {
        let t: String = text.iter().collect();
        self.re.is_match(&t)
    }
}

} // verus!
