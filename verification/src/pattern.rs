//! Regular expressions that text input must match, compiled and matched by
//! the `regex` crate.

use regex::Regex;
use vstd::prelude::*;

verus! {

#[verifier::external_type_specification]
#[verifier::external_body]
pub struct ExRegex(Regex);

/// Whether `regex` accepts the pattern source as a regular expression.
pub uninterp spec fn regex_compiles(source: Seq<char>) -> bool;

/// Whether the regular expression compiled from `source` matches somewhere in `text`.
pub uninterp spec fn regex_is_match(source: Seq<char>, text: Seq<char>) -> bool;

/// A compiled regular expression together with its source text.
pub struct Pattern {
    source: String,
    regex: Regex,
}

impl Pattern {
    /// The source text the pattern was compiled from.
    pub closed spec fn spec_source(&self) -> Seq<char> {
        self.source@
    }

    /// Compiles `source` with `Regex::new`; `None` where the crate rejects it.
    /// The contract claims that the crate's verdict depends on the source
    /// alone, and that the compiled expression is kept with its source.
    #[verifier::external_body]
    fn compile(source: &str) -> (r: Option<Pattern>)
        ensures
            r.is_some() <==> regex_compiles(source@),
            r matches Some(p) ==> p.spec_source() == source@,
    {
        match Regex::new(source) {
            Ok(regex) => Some(Pattern { source: source.to_string(), regex }),
            Err(_) => None,
        }
    }

    /// Calls `Regex::is_match`: whether the expression matches somewhere in
    /// `text`, a function of the source and the text alone.
    #[verifier::external_body]
    pub(crate) fn is_match(&self, text: &str) -> (r: bool)
        ensures
            r == regex_is_match(self.spec_source(), text@),
    {
        self.regex.is_match(text)
    }

    /// The pattern compiled from `source`, or `None` where `source` is not
    /// a regular expression.
    pub fn new(source: &str) -> (r: Option<Pattern>)
        ensures
            r.is_some() <==> regex_compiles(source@),
            r matches Some(p) ==> p.spec_source() == source@,
    {
        Pattern::compile(source)
    }

    /// The source text the pattern was compiled from.
    pub fn source(&self) -> (r: &str)
        ensures
            r@ == self.spec_source(),
    {
        self.source.as_str()
    }
}

} // verus!
