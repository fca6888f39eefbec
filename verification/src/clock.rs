//! The time of a record, read from the local clock by the `chrono` crate.

use crate::ansi::within;
use crate::style::{dim, dim_code, styled_as};
use vstd::prelude::*;

verus! {

/// The pattern that the time of a record is written in: year, month, day,
/// hour, minute and second between square brackets.
pub open spec fn stamp_pattern() -> Seq<char> {
    "[%Y-%m-%d %H:%M:%S]"@
}

/// Whether `c` is a decimal digit.
pub open spec fn is_digit(c: char) -> bool {
    within(c, '0', '9')
}

/// Whether `year` is a year as it is written: four digits, or a sign and at
/// least four digits for a year before 0 or after 9999.
pub open spec fn is_year(year: Seq<char>) -> bool {
    if year.len() > 0 && (year[0] == '+' || year[0] == '-') {
        year.len() >= 5 && forall|i: int| 1 <= i < year.len() ==> is_digit(#[trigger] year[i])
    } else {
        year.len() == 4 && forall|i: int| 0 <= i < year.len() ==> is_digit(#[trigger] year[i])
    }
}

/// Whether `tail` is what follows the year in the time of a record:
/// `-MM-DD HH:MM:SS]`, each letter a digit.
pub open spec fn is_stamp_tail(tail: Seq<char>) -> bool {
    &&& tail.len() == 16
    &&& tail[0] == '-'
    &&& is_digit(tail[1])
    &&& is_digit(tail[2])
    &&& tail[3] == '-'
    &&& is_digit(tail[4])
    &&& is_digit(tail[5])
    &&& tail[6] == ' '
    &&& is_digit(tail[7])
    &&& is_digit(tail[8])
    &&& tail[9] == ':'
    &&& is_digit(tail[10])
    &&& is_digit(tail[11])
    &&& tail[12] == ':'
    &&& is_digit(tail[13])
    &&& is_digit(tail[14])
    &&& tail[15] == ']'
}

/// Whether `s` is the time of a record: `[YYYY-MM-DD HH:MM:SS]`, with a sign
/// and more digits in the year where four do not hold it. Between the years 0
/// and 9999 it is 21 characters long.
pub open spec fn is_stamp(s: Seq<char>) -> bool {
    &&& s.len() >= 21
    &&& s[0] == '['
    &&& is_year(s.subrange(1, s.len() - 16))
    &&& is_stamp_tail(s.subrange(s.len() - 16, s.len() as int))
}

/// `Local::now` of the `chrono` crate, written out by `format` in the given
/// pattern. Which digits come back depends on the clock and the time zone;
/// their places do not: the pattern's own brackets and marks, two digits for
/// each of month, day, hour, minute and second, and four for the year, or a
/// sign and at least four where the year lies outside 0 to 9999. Any other
/// pattern is left out, since an invalid one makes `chrono` panic.
#[verifier::external_body]
pub(crate) fn local_time(pattern: &str) -> (stamp: String)
    requires
        pattern@ == stamp_pattern(),
    ensures
        is_stamp(stamp@),
{
    chrono::Local::now().format(pattern).to_string()
}

/// The current local time as it is shown in a record: dimmed, as far as
/// colours are switched on.
pub fn timestamp() -> (shown: String)
    ensures
        exists|stamp: Seq<char>| #[trigger] is_stamp(stamp) && styled_as(shown@, stamp, dim_code()),
{
    let stamp = local_time("[%Y-%m-%d %H:%M:%S]");
    let shown = dim(stamp.as_str());
    assert(is_stamp(stamp@) && styled_as(shown@, stamp@, dim_code()));
    shown
}

} // verus!
