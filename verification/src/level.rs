//! Severity levels and their names.

use vstd::prelude::*;

verus! {

/// The severity of a log line.
#[derive(Clone, Copy, PartialEq, Eq, Structural, Debug, Hash)]
pub enum LogLevel {
    Unknown,
    Trace,
    Debug,
    Info,
    Warn,
    Error,
    Fatal,
}

/// What `str::to_lowercase` makes of `s` (Unicode lowercase mapping).
pub uninterp spec fn str_lowercase(s: Seq<char>) -> Seq<char>;

/// Whether every character of `s` is ASCII.
pub open spec fn all_ascii(s: Seq<char>) -> bool {
    forall|i: int| 0 <= i < s.len() ==> (#[trigger] s[i] as u32) < 128
}

/// `c` with an ASCII capital letter turned into its small letter.
pub open spec fn ascii_lower_char(c: char) -> char {
    if 65 <= (c as u32) && (c as u32) <= 90 {
        ((c as u32) + 32) as char
    } else {
        c
    }
}

/// `s` with each ASCII capital letter turned into its small letter.
pub open spec fn ascii_lowercase(s: Seq<char>) -> Seq<char> {
    s.map_values(|c: char| ascii_lower_char(c))
}

/// The lowercase form of `s`, by `str::to_lowercase`. The contract names
/// the result; the Unicode case tables are not restated, but for ASCII text
/// the Unicode mapping lowers each capital letter and keeps every other
/// character, which the contract states.
#[verifier::external_body]
pub(crate) fn to_lowercase(s: &str) -> (lower: String)
    ensures
        lower@ == str_lowercase(s@),
        all_ascii(s@) ==> lower@ == ascii_lowercase(s@),
{
    s.to_lowercase()
}

/// The level whose lowercase name is `name`.
pub open spec fn spec_level_named(name: Seq<char>) -> Option<LogLevel> {
    if name == "unknown"@ {
        Some(LogLevel::Unknown)
    } else if name == "trace"@ {
        Some(LogLevel::Trace)
    } else if name == "debug"@ {
        Some(LogLevel::Debug)
    } else if name == "info"@ {
        Some(LogLevel::Info)
    } else if name == "warn"@ {
        Some(LogLevel::Warn)
    } else if name == "error"@ {
        Some(LogLevel::Error)
    } else if name == "fatal"@ {
        Some(LogLevel::Fatal)
    } else {
        None
    }
}

/// The level whose lowercase name is exactly `name`.
pub fn level_from_lowercase(name: &str) -> (level: Option<LogLevel>)
    ensures
        level == spec_level_named(name@),
{
    let name = name.to_owned();
    if name == "unknown".to_owned() {
        Some(LogLevel::Unknown)
    } else if name == "trace".to_owned() {
        Some(LogLevel::Trace)
    } else if name == "debug".to_owned() {
        Some(LogLevel::Debug)
    } else if name == "info".to_owned() {
        Some(LogLevel::Info)
    } else if name == "warn".to_owned() {
        Some(LogLevel::Warn)
    } else if name == "error".to_owned() {
        Some(LogLevel::Error)
    } else if name == "fatal".to_owned() {
        Some(LogLevel::Fatal)
    } else {
        None
    }
}

/// The level named `name` in any letter case: the one whose lowercase
/// name is `name` lowercased, ASCII letter by letter where `name` is ASCII.
pub open spec fn spec_parse_level(name: Seq<char>) -> Option<LogLevel> {
    if all_ascii(name) {
        spec_level_named(ascii_lowercase(name))
    } else {
        spec_level_named(str_lowercase(name))
    }
}

/// The level named `level`, in any letter case.
pub fn parse_level(level: &str) -> (parsed: Option<LogLevel>)
    ensures
        parsed == spec_parse_level(level@),
        parsed == spec_level_named(str_lowercase(level@)),
        all_ascii(level@) ==> parsed == spec_level_named(ascii_lowercase(level@)),
{
    let lower = to_lowercase(level);
    level_from_lowercase(lower.as_str())
}

} // verus!
