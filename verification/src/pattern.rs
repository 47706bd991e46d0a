//! Patterns for release tags and asset names: regular expressions of the `regex`
//! crate, compiled once.

use regex::Regex;
use vstd::prelude::*;

verus! {

/// `regex::Regex`, a compiled regular expression.
#[verifier::external_type_specification]
#[verifier::external_body]
pub struct ExRegex(regex::Regex);

/// `regex::Error`, the reason why a pattern was rejected.
#[verifier::external_type_specification]
#[verifier::external_body]
pub struct ExRegexError(regex::Error);

/// A compiled pattern, together with the text that it was compiled from. The fields
/// are set only where the text is compiled.
pub struct Pattern {
    source: String,
    regex: Regex,
}

impl View for Pattern {
    type V = Seq<char>;

    closed spec fn view(&self) -> Seq<char> {
        self.source@
    }
}

/// A pattern that does not compile.
#[derive(Debug)]
pub struct InvalidPattern {
    pub pattern: String,
    pub reason: regex::Error,
}

/// Whether a pattern, given by its text, matches somewhere in a haystack: what
/// `regex::Regex::is_match` answers for the pattern as `regex::Regex::new` compiles
/// it.
pub uninterp spec fn pattern_is_match(pattern: Seq<char>, haystack: Seq<char>) -> bool;

/// Calls `regex::Regex::new`. A pattern that comes back is the one compiled from the
/// given text. For which texts one comes back is left unsaid: besides the syntax, the
/// crate bounds the bytes that the compiled program takes in memory, and those depend
/// on the machine.
#[verifier::external_body]
fn compile_regex(source: &str) -> (compiled: Result<Pattern, regex::Error>)
    ensures
        compiled matches Ok(pattern) ==> pattern@ == source@,
{
    match Regex::new(source) {
        Ok(regex) => Ok(Pattern { source: source.to_owned(), regex }),
        Err(error) => Err(error),
    }
}

/// Calls `regex::Regex::is_match`, whose answer depends on the text that the pattern
/// was compiled from and on the haystack, and on nothing else.
#[verifier::external_body]
fn regex_is_match(pattern: &Pattern, haystack: &str) -> (found: bool)
    ensures
        found == pattern_is_match(pattern@, haystack@),
{
    pattern.regex.is_match(haystack)
}

/// Turns what compiling a text gave into a pattern or into the rejection of that text.
pub fn accept_compiled(source: &str, compiled: Result<Pattern, regex::Error>) -> (accepted: Result<
    Pattern,
    InvalidPattern,
>)
    ensures
        match compiled {
            Ok(pattern) => accepted == Ok::<Pattern, InvalidPattern>(pattern),
            Err(reason) => accepted matches Err(invalid) && invalid.pattern@ == source@
                && invalid.reason == reason,
        },
{
    match compiled {
        Ok(pattern) => Ok(pattern),
        Err(reason) => Err(InvalidPattern { pattern: source.to_owned(), reason }),
    }
}

impl Pattern {
    /// Compiles a pattern.
    pub fn compile(source: &str) -> (compiled: Result<Pattern, InvalidPattern>)
        ensures
            match compiled {
                Ok(pattern) => pattern@ == source@,
                Err(invalid) => invalid.pattern@ == source@,
            },
    {
        accept_compiled(source, compile_regex(source))
    }

    /// The text that the pattern was compiled from.
    pub fn as_str(&self) -> (source: &str)
        ensures
            source@ == self@,
    {
        self.source.as_str()
    }

    /// Whether the pattern matches somewhere in a text.
    pub fn is_match(&self, haystack: &str) -> (found: bool)
        ensures
            found == pattern_is_match(self@, haystack@),
    {
        regex_is_match(self, haystack)
    }
}

} // verus!
