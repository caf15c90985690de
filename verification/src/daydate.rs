//! Day keys and their display labels. A day key is the ten-character date
//! part of a timestamp, `YYYY-MM-DD`; its display label (weekday name, day
//! and month) is produced by the `chrono` crate behind a trusted wrapper.

use vstd::prelude::*;

verus! {

pub open spec fn is_digit(c: char) -> bool {
    '0' <= c && c <= '9'
}

pub open spec fn digit_val(c: char) -> int {
    c as int - '0' as int
}

/// Days in a month of the proleptic Gregorian calendar.
pub open spec fn days_in_month(y: int, m: int) -> int {
    if m == 2 {
        if (y % 4 == 0 && y % 100 != 0) || y % 400 == 0 {
            29
        } else {
            28
        }
    } else if m == 4 || m == 6 || m == 9 || m == 11 {
        30
    } else {
        31
    }
}

pub open spec fn key_year(s: Seq<char>) -> int {
    digit_val(s[0]) * 1000 + digit_val(s[1]) * 100 + digit_val(s[2]) * 10 + digit_val(s[3])
}

pub open spec fn key_month(s: Seq<char>) -> int {
    digit_val(s[5]) * 10 + digit_val(s[6])
}

pub open spec fn key_day(s: Seq<char>) -> int {
    digit_val(s[8]) * 10 + digit_val(s[9])
}

/// A well-formed day key: `YYYY-MM-DD` with zero-padded digits and a valid
/// calendar date.
pub open spec fn valid_date(s: Seq<char>) -> bool {
    &&& s.len() == 10
    &&& is_digit(s[0])
    &&& is_digit(s[1])
    &&& is_digit(s[2])
    &&& is_digit(s[3])
    &&& s[4] == '-'
    &&& is_digit(s[5])
    &&& is_digit(s[6])
    &&& s[7] == '-'
    &&& is_digit(s[8])
    &&& is_digit(s[9])
    &&& 1 <= key_month(s) <= 12
    &&& 1 <= key_day(s) <= days_in_month(key_year(s), key_month(s))
}

/// The display label that the `chrono` crate formats for a day key: a
/// function of the ten characters alone.
pub uninterp spec fn weekday_label_of(day: Seq<char>) -> Seq<char>;

/// Relies on `chrono::NaiveDate::parse_from_str` with format `%Y-%m-%d`,
/// which accepts every well-formed `YYYY-MM-DD` calendar date, and on
/// formatting the parsed date with `%a %d.%m.`: a three-letter English
/// weekday name, a space, the two-digit day, a point, the two-digit month
/// and a point — ten characters, determined by the day key alone.
#[verifier::external_body]
pub fn weekday_label(day: &str) -> (r: Option<String>)
    ensures
        valid_date(day@) ==> r is Some && r->0@ == weekday_label_of(day@) && r->0@.len() == 10,
{
    match chrono::NaiveDate::parse_from_str(day, "%Y-%m-%d") {
        Ok(d) => Some(d.format("%a %d.%m.").to_string()),
        Err(_) => None,
    }
}

} // verus!
