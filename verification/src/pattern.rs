//! Compiled patterns. A pattern keeps the text it was compiled from, and is
//! only ever made by compiling that text.

use vstd::prelude::*;

verus! {

/// A compiled regular expression of the `regex` crate.
#[verifier::external_type_specification]
#[verifier::external_body]
pub struct ExRegex(regex::Regex);

/// Whether `regex::Regex::new` accepts a text as a regular expression.
pub uninterp spec fn regex_compiles(source: Seq<char>) -> bool;

/// The byte ranges that `regex::Regex::find_iter` yields for the regular
/// expression with this text, in the order in which it yields them.
pub uninterp spec fn regex_matches(source: Seq<char>, hay: Seq<char>) -> Seq<(usize, usize)>;

/// A pattern and the text it was compiled from.
pub struct Pattern {
    source: String,
    regex: regex::Regex,
}

impl Pattern {
    /// The text of the pattern.
    pub closed spec fn text(&self) -> Seq<char> {
        self.source@
    }

    /// Calls `regex::Regex::new`. It succeeds exactly on the texts it accepts,
    /// and what it makes matches what that text says.
    #[verifier::external_body]
    pub(crate) fn compile(source: &str) -> (r: Option<Pattern>)
        ensures
            r is Some == regex_compiles(source@),
            r matches Some(pattern) ==> pattern.text() == source@,
    {
        let regex = regex::Regex::new(source).ok()?;
        Some(Pattern { source: source.to_string(), regex })
    }

    /// Calls `regex::Regex::find_iter` and collects the byte ranges it yields.
    /// They are a function of the pattern's text and of the text searched.
    #[verifier::external_body]
    pub(crate) fn find_all(&self, hay: &str) -> (r: Vec<(usize, usize)>)
        ensures
            r@ == regex_matches(self.text(), hay@),
    {
        self.regex.find_iter(hay).map(|hit| (hit.start(), hit.end())).collect()
    }
}

} // verus!
