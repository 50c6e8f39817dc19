//! Interpreting the answers of the systemd journal library, and choosing
//! what of an entry is stored: its source and its message.

use vstd::prelude::*;
use vstd::utf8::encode_utf8;

verus! {

/// `libc::ENOENT`, the C library's "no such file or directory" error
/// number, which the journal reports for a field an entry does not have.
/// The contract claims its value is 2, as the C libraries of Linux define it.
#[verifier::external_body]
fn enoent() -> (e: i32)
    ensures
        e == 2,
{
    libc::ENOENT
}

/// An error number reported by a journal call.
#[derive(Clone, Copy, PartialEq, Eq, Structural, Debug)]
pub struct OsError {
    pub code: i32,
}

/// The result of a journal call that returned `r`: negative values are
/// negated error numbers.
pub open spec fn spec_sd_result(r: i32) -> Result<i32, OsError> {
    if r < 0 {
        Err(OsError { code: (-r) as i32 })
    } else {
        Ok(r)
    }
}

/// The result of a journal call that returned `r`: negative values are
/// negated error numbers.
pub fn sd_result(r: i32) -> (res: Result<i32, OsError>)
    requires
        r > i32::MIN,
    ensures
        res == spec_sd_result(r),
{
    if r < 0 {
        return Err(OsError { code: -r });
    }
    Ok(r)
}

/// Where the value of a journal field starts in the data the journal
/// returned, given the call's result `r`, whether the data pointer is null,
/// the data's length and the length of the field name with its terminating
/// NUL. The data has the form `FIELD=value`, so the value starts after the
/// name and the `=`, which take as many bytes as the NUL-terminated name.
/// `None` where the entry lacks the field or the value is empty.
pub open spec fn spec_field_value_start(r: i32, data_is_null: bool, len: usize, field_len: usize) -> Result<
    Option<usize>,
    OsError,
> {
    if r == -2 {
        Ok(None)
    } else if r < 0 {
        Err(OsError { code: (-r) as i32 })
    } else if data_is_null || len <= field_len {
        Ok(None)
    } else {
        Ok(Some(field_len))
    }
}

/// Where the value of a journal field starts in the data the journal
/// returned; `None` where the entry lacks the field or the value is empty.
pub fn field_value_start(r: i32, data_is_null: bool, len: usize, field_len: usize) -> (res: Result<
    Option<usize>,
    OsError,
>)
    requires
        r > i32::MIN,
    ensures
        res == spec_field_value_start(r, data_is_null, len, field_len),
{
    if r == -enoent() {
        return Ok(None);
    }
    match sd_result(r) {
        Err(e) => {
            return Err(e);
        },
        Ok(_) => {},
    }
    if data_is_null || len <= field_len {
        return Ok(None);
    }
    Ok(Some(field_len))
}

/// Whether a field value can name the source of an entry: it exists and is
/// not empty.
pub open spec fn spec_usable_source(value: Option<Seq<u8>>) -> bool {
    value matches Some(v) && v.len() > 0
}

/// Whether a field value can name the source of an entry: it exists and is
/// not empty.
pub fn usable_source(value: Option<&[u8]>) -> (usable: bool)
    ensures
        usable == (value matches Some(v) && v@.len() > 0),
{
    match value {
        Some(v) => v.len() > 0,
        None => false,
    }
}

/// How long one wait for new journal entries lasts, in microseconds.
pub const JOURNAL_WAIT_TIMEOUT_USEC: u64 = 500_000;

/// How many fields may name the source of an entry.
pub const SOURCE_FIELD_COUNT: usize = 6;

/// The names, NUL-terminated, of the fields that may name the source of an
/// entry, in order of preference.
pub open spec fn spec_source_field(i: int) -> Seq<u8> {
    if i == 0 {
        encode_utf8("_SYSTEMD_UNIT\0"@)
    } else if i == 1 {
        encode_utf8("_SYSTEMD_USER_UNIT\0"@)
    } else if i == 2 {
        encode_utf8("SYSLOG_IDENTIFIER\0"@)
    } else if i == 3 {
        encode_utf8("_COMM\0"@)
    } else if i == 4 {
        encode_utf8("_EXE\0"@)
    } else {
        encode_utf8("_PID\0"@)
    }
}

/// The name, NUL-terminated, of the source field of preference `i`.
pub fn source_field(i: usize) -> (name: &'static [u8])
    requires
        i < SOURCE_FIELD_COUNT,
    ensures
        name@ == spec_source_field(i as int),
{
    if i == 0 {
        "_SYSTEMD_UNIT\0".as_bytes()
    } else if i == 1 {
        "_SYSTEMD_USER_UNIT\0".as_bytes()
    } else if i == 2 {
        "SYSLOG_IDENTIFIER\0".as_bytes()
    } else if i == 3 {
        "_COMM\0".as_bytes()
    } else if i == 4 {
        "_EXE\0".as_bytes()
    } else {
        "_PID\0".as_bytes()
    }
}

/// The name, NUL-terminated, of the field that holds an entry's message.
pub fn message_field() -> (name: &'static [u8])
    ensures
        name@ == encode_utf8("MESSAGE\0"@),
{
    "MESSAGE\0".as_bytes()
}

/// What stands for a source or a message that an entry lacks.
pub open spec fn placeholder() -> Seq<u8> {
    encode_utf8("[PLACEHOLDER]"@)
}

/// What stands for a source or a message that an entry lacks.
pub fn placeholder_bytes() -> (p: &'static [u8])
    ensures
        p@ == placeholder(),
{
    "[PLACEHOLDER]".as_bytes()
}

/// The message to store: the entry's message, or the placeholder where it
/// has none.
pub fn message_or_placeholder(value: Option<&[u8]>) -> (message: &[u8])
    ensures
        message@ == match value {
            Some(v) => v@,
            None => placeholder(),
        },
{
    match value {
        Some(v) => v,
        None => placeholder_bytes(),
    }
}

/// What the collector does after reading the source field of preference
/// `i`.
#[derive(Clone, Copy, PartialEq, Eq, Structural, Debug)]
pub enum SourceStep {
    /// The value read names the source.
    Use,
    /// Read the source field of this preference next.
    Read(usize),
    /// No field names the source: the placeholder does.
    Placeholder,
}

/// The step after reading `value` from the source field of preference `i`.
pub open spec fn spec_source_step(i: int, value: Option<Seq<u8>>) -> SourceStep {
    if spec_usable_source(value) {
        SourceStep::Use
    } else if i + 1 < SOURCE_FIELD_COUNT {
        SourceStep::Read((i + 1) as usize)
    } else {
        SourceStep::Placeholder
    }
}

/// The source of an entry whose source fields, from preference `i` on,
/// hold `values`: the first usable one, else the placeholder.
pub open spec fn spec_source_from(values: Seq<Option<Seq<u8>>>, i: int) -> Seq<u8>
    decreases values.len() - i,
{
    if i < 0 || i >= values.len() {
        placeholder()
    } else if spec_usable_source(values[i]) {
        values[i]->Some_0
    } else {
        spec_source_from(values, i + 1)
    }
}

/// The step after reading `value` from the source field of preference `i`:
/// use it where it is usable, else read the next field, and after the last
/// one fall back on the placeholder.
pub fn next_source_step(i: usize, value: Option<&[u8]>) -> (step: SourceStep)
    requires
        i < SOURCE_FIELD_COUNT,
    ensures
        step == spec_source_step(
            i as int,
            match value {
                Some(v) => Some(v@),
                None => None,
            },
        ),
{
    if usable_source(value) {
        SourceStep::Use
    } else if i + 1 < SOURCE_FIELD_COUNT {
        SourceStep::Read(i + 1)
    } else {
        SourceStep::Placeholder
    }
}

/// Following the steps from the first preference finds the first usable
/// source field: a field is used exactly when every preferred one is
/// unusable, and the placeholder when all of them are.
pub proof fn lemma_source_steps(values: Seq<Option<Seq<u8>>>, i: int)
    requires
        values.len() == SOURCE_FIELD_COUNT,
        0 <= i < SOURCE_FIELD_COUNT,
    ensures
        spec_source_step(i, values[i]) == SourceStep::Use ==> spec_source_from(values, i)
            == values[i]->Some_0,
        spec_source_step(i, values[i]) matches SourceStep::Read(j) ==> j == i + 1
            && spec_source_from(values, i) == spec_source_from(values, j as int),
        spec_source_step(i, values[i]) == SourceStep::Placeholder ==> spec_source_from(values, i)
            == placeholder(),
{
    assert(spec_source_from(values, SOURCE_FIELD_COUNT as int) == placeholder());
}

} // verus!
