//! Regular expressions that decide which object names count as Angular
//! modules. Compiling and matching are done by the `regex` crate.

use vstd::prelude::*;

verus! {

#[verifier::external_type_specification]
#[verifier::external_body]
pub struct ExRegex(regex::Regex);

#[verifier::external_type_specification]
#[verifier::external_body]
pub struct ExRegexError(regex::Error);

/// Whether the `regex` crate accepts `pattern` (syntax and size limit).
pub uninterp spec fn regex_compiles(pattern: Seq<char>) -> bool;

/// Whether the regular expression `pattern` matches somewhere in `text`,
/// with the semantics of the `regex` crate.
pub uninterp spec fn regex_matches(pattern: Seq<char>, text: Seq<char>) -> bool;

/// The pattern used when none is configured: a non-empty run of ASCII
/// letters, digits, `_`, `$`, `.` and white space.
pub open spec fn default_pattern() -> Seq<char> {
    "^[a-zA-Z0-9_$.\\s]+$"@
}

/// Why a pattern could not be compiled.
#[derive(Debug, Clone, Copy, PartialEq, Eq, Structural)]
pub enum RegexError {
    /// The `regex` crate refused the pattern.
    Invalid,
}

/// A compiled regular expression together with its source text.
pub struct Pattern {
    source: String,
    compiled: regex::Regex,
}

impl Pattern {
    /// The text that the pattern was compiled from.
    pub closed spec fn spec_source(&self) -> Seq<char> {
        self.source@
    }

    /// The source text of the pattern.
    pub fn source(&self) -> (r: &String)
        ensures
            r@ == self.spec_source(),
    {
        &self.source
    }
}

/// Calls `regex::Regex::new`. Claims that it succeeds exactly on the
/// patterns named by `regex_compiles`.
#[verifier::external_body]
fn compile(pattern: &str) -> (r: Result<regex::Regex, regex::Error>)
    ensures
        r is Ok <==> regex_compiles(pattern@),
{
    regex::Regex::new(pattern)
}

/// Calls `regex::Regex::is_match` on the compiled form of `p`. Claims that
/// the answer is `regex_matches` of the source text and `text`; `Pattern`
/// values are only built by `build_regexp` from the regex compiled from
/// their source.
#[verifier::external_body]
fn pattern_is_match(p: &Pattern, text: &str) -> (r: bool)
    ensures
        r == regex_matches(p.spec_source(), text@),
{
    p.compiled.is_match(text)
}

/// Compiles `pattern`; fails exactly when the `regex` crate refuses it.
pub fn build_regexp(pattern: &str) -> (r: Result<Pattern, RegexError>)
    ensures
        r is Ok <==> regex_compiles(pattern@),
        r matches Ok(p) ==> p.spec_source() == pattern@,
{
    match compile(pattern) {
        Ok(re) => Ok(Pattern { source: pattern.to_string(), compiled: re }),
        Err(_) => Err(RegexError::Invalid),
    }
}

/// Compiles the default pattern.
pub fn default_regexp() -> (r: Result<Pattern, RegexError>)
    ensures
        r is Ok <==> regex_compiles(default_pattern()),
        r matches Ok(p) ==> p.spec_source() == default_pattern(),
{
    build_regexp("^[a-zA-Z0-9_$.\\s]+$")
}

/// Whether `p` matches somewhere in `text`.
pub fn is_match(p: &Pattern, text: &str) -> (r: bool)
    ensures
        r == regex_matches(p.spec_source(), text@),
{
    pattern_is_match(p, text)
}

} // verus!
