//! Regular expressions, through the `regex` crate.

use vstd::prelude::*;

verus! {

#[verifier::external_type_specification]
#[verifier::external_body]
pub struct ExRegex(regex::Regex);

#[verifier::external_type_specification]
#[verifier::external_body]
pub struct ExRegexError(regex::Error);

/// Whether `regex::Regex::new` accepts a pattern.
pub uninterp spec fn regex_compiles(pattern: Seq<char>) -> bool;

/// Whether the regex compiled from `pattern` matches somewhere in `haystack`,
/// as `regex::Regex::is_match` answers.
pub uninterp spec fn regex_is_match(pattern: Seq<char>, haystack: Seq<char>) -> bool;

/// A compiled regular expression together with the pattern it was compiled
/// from. Only `compile_pattern` makes one.
pub struct SqlPattern {
    source: String,
    re: regex::Regex,
}

impl SqlPattern {
    /// The pattern this regex was compiled from.
    pub closed spec fn source(&self) -> Seq<char> {
        self.source@
    }
}

/// Calls `regex::Regex::new`. Claims that it succeeds exactly when
/// `regex_compiles` holds of the pattern (which patterns those are is not
/// stated), and keeps the pattern beside the compiled regex.
#[verifier::external_body]
pub(crate) fn compile_pattern(pattern: &str) -> (r: Result<SqlPattern, regex::Error>)
    ensures
        r is Ok == regex_compiles(pattern@),
        r matches Ok(p) ==> p.source() == pattern@,
{
    match regex::Regex::new(pattern) {
        Ok(re) => Ok(SqlPattern { source: pattern.to_string(), re }),
        Err(e) => Err(e),
    }
}

/// Calls `regex::Regex::is_match`. Claims that the answer is
/// `regex_is_match` of the pattern the regex was compiled from and the
/// haystack; what that relation is, is not stated.
#[verifier::external_body]
pub(crate) fn pattern_is_match(p: &SqlPattern, haystack: &str) -> (b: bool)
    ensures
        b == regex_is_match(p.source(), haystack@),
{
    p.re.is_match(haystack)
}

} // verus!
