//! The local wall clock, read through `chrono`.

use vstd::prelude::*;

verus! {

/// Whether `c` is an ASCII decimal digit.
pub open spec fn is_digit(c: char) -> bool {
    '0' <= c && c <= '9'
}

/// Whether `s` has the shape `HH:MM:SS.mmm`: twelve characters, digits with
/// colons at positions 2 and 5 and a point at position 8.
pub open spec fn is_clock_text(s: Seq<char>) -> bool {
    &&& s.len() == 12
    &&& s[2] == ':' && s[5] == ':' && s[8] == '.'
    &&& is_digit(s[0]) && is_digit(s[1]) && is_digit(s[3]) && is_digit(s[4])
    &&& is_digit(s[6]) && is_digit(s[7]) && is_digit(s[9]) && is_digit(s[10]) && is_digit(s[11])
}

/// Calls `chrono::Local::now` and renders the result with
/// `DateTime::format`: the current time in the machine's time zone, as text
/// in the given strftime format.  Only the change log's format is admitted,
/// which `format` renders without error: two-digit hour, minute and second
/// (zero-padded; the second is 60 at most), separated by colons, then a point
/// and three digits of milliseconds.  Which time it shows depends on the
/// clock and the time zone, and is not stated.
#[verifier::external_body]
pub(crate) fn local_time_text(fmt: &str) -> (r: String)
    requires
        fmt@ == "%H:%M:%S%.3f"@,
    ensures
        is_clock_text(r@),
{
    chrono::Local::now().format(fmt).to_string()
}

} // verus!
