//! Compiled asset-name patterns, backed by the `regex` crate.
//!
//! A [`Pattern`] pairs a compiled regular expression with its source
//! text. The contracts speak only of the source text: compilation and
//! matching are deterministic functions of it.

use vstd::prelude::*;

verus! {

/// Whether `regex::Regex::new` accepts this pattern text.
pub uninterp spec fn regex_valid(pattern: Seq<char>) -> bool;

/// Whether a regular expression compiled from `pattern` matches `text`
/// (in the sense of `regex::Regex::is_match`).
pub uninterp spec fn regex_match(pattern: Seq<char>, text: Seq<char>) -> bool;

#[verifier::external_type_specification]
#[verifier::external_body]
pub struct ExRegex(regex::Regex);

/// A compiled regular expression together with its source text.
///
/// The fields are private: `compile` is the only constructor, so the
/// compiled expression always comes from the stored source text.
pub struct Pattern {
    source: String,
    regex: regex::Regex,
}

impl Pattern {
    /// The source text this pattern was compiled from.
    pub closed spec fn src(self) -> Seq<char> {
        self.source@
    }

    /// Relies on `regex::Regex::new`: whether a pattern compiles is a
    /// deterministic function of the pattern text alone; on success the
    /// compiled expression is stored beside the text it came from.
    #[verifier::external_body]
    pub(crate) fn compile(source: &str) -> (r: Option<Pattern>)
        ensures
            r is Some <==> regex_valid(source@),
            r is Some ==> r->0.src() == source@,
    {
        match regex::Regex::new(source) {
            Ok(regex) => Some(Pattern { source: source.to_owned(), regex }),
            Err(_) => None,
        }
    }

    /// Relies on `regex::Regex::is_match`: the answer is a deterministic
    /// function of the pattern text and the haystack alone. The compiled
    /// expression was built from the stored source text (see `compile`).
    #[verifier::external_body]
    pub(crate) fn is_match(&self, text: &str) -> (r: bool)
        ensures
            r == regex_match(self.src(), text@),
    {
        self.regex.is_match(text)
    }

    /// The stored source text.
    pub fn source_str(&self) -> (r: &str)
        ensures
            r@ == self.src(),
    {
        self.source.as_str()
    }
}

} // verus!
