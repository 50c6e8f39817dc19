//! Compiled regular expressions, and compilation errors, each kept together
//! with the text it was compiled from.

use regex::Regex;
use vstd::prelude::*;

verus! {

#[verifier::external_type_specification]
#[verifier::external_body]
pub struct ExRegex(Regex);

#[verifier::external_type_specification]
#[verifier::external_body]
pub struct ExRegexError(regex::Error);

/// Whether `regex::Regex::new` accepts `pattern`: a valid pattern whose
/// compiled form stays within the default size limit.
pub uninterp spec fn regex_compiles(pattern: Seq<char>) -> bool;

/// Whether the regex compiled from `pattern` matches somewhere in
/// `haystack`, as `regex::Regex::is_match` decides.
pub uninterp spec fn regex_is_match(pattern: Seq<char>, haystack: Seq<char>) -> bool;

/// A regular expression and the text it was compiled from. Only
/// `compile_pattern` builds one, so `regex` is always the compilation of
/// `source`.
pub struct Pattern {
    source: String,
    regex: Regex,
}

impl View for Pattern {
    type V = Seq<char>;

    closed spec fn view(&self) -> Seq<char> {
        self.source@
    }
}

/// What the `Display` impl of the error that `regex::Regex::new` gives for
/// `pattern` writes.
pub uninterp spec fn regex_error_message(pattern: Seq<char>) -> Seq<char>;

/// A pattern that failed to compile, and the error `regex::Regex::new` gave
/// for it. Only `compile_pattern` builds one, so `error` is always the
/// error of compiling `source`.
pub struct PatternError {
    source: String,
    error: regex::Error,
}

impl View for PatternError {
    type V = Seq<char>;

    closed spec fn view(&self) -> Seq<char> {
        self.source@
    }
}

/// Compiles `pattern` with `regex::Regex::new`, keeping its text. The
/// contract claims that the call succeeds exactly where `regex_compiles`
/// holds of the text, and that a success or a failure keeps the text
/// unchanged.
#[verifier::external_body]
pub(crate) fn compile_pattern(pattern: &str) -> (compiled: Result<Pattern, PatternError>)
    ensures
        compiled is Ok <==> regex_compiles(pattern@),
        compiled matches Ok(p) ==> p@ == pattern@,
        compiled matches Err(e) ==> e@ == pattern@,
{
    match Regex::new(pattern) {
        Ok(regex) => Ok(Pattern { source: pattern.to_owned(), regex }),
        Err(error) => Err(PatternError { source: pattern.to_owned(), error }),
    }
}

/// Whether `pattern` matches somewhere in `haystack`, by
/// `regex::Regex::is_match`. The contract claims the result is
/// `regex_is_match` of the pattern's text and the haystack.
#[verifier::external_body]
pub(crate) fn pattern_is_match(pattern: &Pattern, haystack: &str) -> (matched: bool)
    ensures
        matched == regex_is_match(pattern@, haystack@),
{
    pattern.regex.is_match(haystack)
}

/// The message of a regex compilation error, by its `Display` impl. The
/// contract claims it is `regex_error_message` of the pattern that failed,
/// which determines the error.
#[verifier::external_body]
pub(crate) fn regex_error_text(err: &PatternError) -> (text: String)
    ensures
        text@ == regex_error_message(err@),
{
    err.error.to_string()
}

} // verus!
