//! Time stamps: the local time of debug lines and the file times of the
//! result.
use vstd::prelude::*;
use crate::text::{append_chars, decimal, decimal_of_i64, string_from_chars};

verus! {

/// The `strftime` format of the time stamp in debug lines.
pub const DATE_FORMAT_STR: &'static str = "%Y-%m-%d  %H:%M:%S";

pub open spec fn is_ascii_digit(c: char) -> bool {
    '0' <= c <= '9'
}

/// The shape of a stamp in `DATE_FORMAT_STR`: a year of at least four
/// characters, then `-MM-DD  HH:MM:SS` with two ASCII digits in each field.
pub open spec fn stamp_shape(s: Seq<char>) -> bool {
    let n = s.len();
    &&& n >= 20
    &&& s[n - 16] == '-'
    &&& is_ascii_digit(s[n - 15]) && is_ascii_digit(s[n - 14])
    &&& s[n - 13] == '-'
    &&& is_ascii_digit(s[n - 12]) && is_ascii_digit(s[n - 11])
    &&& s[n - 10] == ' ' && s[n - 9] == ' '
    &&& is_ascii_digit(s[n - 8]) && is_ascii_digit(s[n - 7])
    &&& s[n - 6] == ':'
    &&& is_ascii_digit(s[n - 5]) && is_ascii_digit(s[n - 4])
    &&& s[n - 3] == ':'
    &&& is_ascii_digit(s[n - 2]) && is_ascii_digit(s[n - 1])
}

/// The local time now, formatted: `chrono::Local::now().format(fmt)`
/// rendered to a string. Which time it shows depends on the clock and the
/// time zone, so the contract states only the shape that chrono gives every
/// time in this format: `%Y` is the year zero-padded to four digits (with a
/// sign and more digits outside 0..=9999), and `%m %d %H %M %S` are two
/// digits each (a leap second shows as `60`). The format is restricted to
/// the one that this module uses, which chrono renders without error.
#[verifier::external_body]
pub(crate) fn local_time_text(fmt: &str) -> (s: String)
    requires
        fmt@ == DATE_FORMAT_STR@,
    ensures
        stamp_shape(s@),
{
    chrono::Local::now().format(fmt).to_string()
}

/// How a file time prints in the result: `{:?}` of its whole seconds since
/// the Unix epoch, a `.`, then `{:?}` of its nanoseconds (not zero-padded).
pub open spec fn file_time_text(secs: int, nanos: int) -> Seq<char> {
    decimal(secs) + seq!['.'] + decimal(nanos)
}

/// The text of a file time given by its seconds and nanoseconds.
pub fn format_file_time(secs: i64, nanos: u32) -> (s: String)
    ensures
        s@ == file_time_text(secs as int, nanos as int),
{
    let mut v = decimal_of_i64(secs);
    v.push('.');
    let n = decimal_of_i64(nanos as i64);
    append_chars(&mut v, &n);
    string_from_chars(&v)
}

} // verus!
