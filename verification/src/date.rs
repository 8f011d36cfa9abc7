//! Calendar dates as plain values.
//!
//! Offers carry a validity window as two calendar dates. The upstream
//! API writes them as ISO-8601 datetime strings; only the date portion
//! (everything before the first `T`) is kept. A date is stored as its
//! year, month and day, checked against the real calendar, leap years
//! included.

use vstd::prelude::*;
use vstd::string::StrSliceExecFns;

verus! {

/// A calendar date, valid when [`Date::spec_valid`] holds.
#[derive(Clone, Copy, PartialEq, Eq, Structural, Debug)]
pub struct Date {
    pub year: u32,
    pub month: u32,
    pub day: u32,
}

/// Leap years of the proleptic Gregorian calendar.
pub open spec fn spec_is_leap_year(y: int) -> bool {
    (y % 4 == 0 && y % 100 != 0) || y % 400 == 0
}

/// Number of days in month `m` of year `y`.
pub open spec fn spec_days_in_month(y: int, m: int) -> int {
    if m == 2 {
        if spec_is_leap_year(y) {
            29
        } else {
            28
        }
    } else if m == 4 || m == 6 || m == 9 || m == 11 {
        30
    } else {
        31
    }
}

/// A decimal digit character.
pub open spec fn spec_is_digit(c: char) -> bool {
    '0' <= c && c <= '9'
}

/// The numeric value of a decimal digit character.
pub open spec fn spec_digit_val(c: char) -> int {
    c as int - 48
}

/// The character of one decimal digit.
pub open spec fn spec_digit_char(d: int) -> char {
    if d == 0 {
        '0'
    } else if d == 1 {
        '1'
    } else if d == 2 {
        '2'
    } else if d == 3 {
        '3'
    } else if d == 4 {
        '4'
    } else if d == 5 {
        '5'
    } else if d == 6 {
        '6'
    } else if d == 7 {
        '7'
    } else if d == 8 {
        '8'
    } else {
        '9'
    }
}

/// Whether ten characters have the shape `YYYY-MM-DD`.
pub open spec fn spec_date_shape(s: Seq<char>) -> bool {
    &&& s.len() == 10
    &&& spec_is_digit(s[0])
    &&& spec_is_digit(s[1])
    &&& spec_is_digit(s[2])
    &&& spec_is_digit(s[3])
    &&& s[4] == '-'
    &&& spec_is_digit(s[5])
    &&& spec_is_digit(s[6])
    &&& s[7] == '-'
    &&& spec_is_digit(s[8])
    &&& spec_is_digit(s[9])
}

/// The date written by ten characters of shape `YYYY-MM-DD`.
pub open spec fn spec_date_of_chars(s: Seq<char>) -> Date {
    Date {
        year: (spec_digit_val(s[0]) * 1000 + spec_digit_val(s[1]) * 100 + spec_digit_val(s[2]) * 10
            + spec_digit_val(s[3])) as u32,
        month: (spec_digit_val(s[5]) * 10 + spec_digit_val(s[6])) as u32,
        day: (spec_digit_val(s[8]) * 10 + spec_digit_val(s[9])) as u32,
    }
}

/// The date a string denotes: its portion before the first `T` must be
/// exactly `YYYY-MM-DD` and name a real calendar day.
pub open spec fn spec_parse_date(s: Seq<char>) -> Option<Date> {
    if s.len() == 10 || (s.len() > 10 && s[10] == 'T') {
        let p = s.take(10);
        if spec_date_shape(p) && spec_date_of_chars(p).spec_valid() {
            Some(spec_date_of_chars(p))
        } else {
            None
        }
    } else {
        None
    }
}

/// The ten characters `YYYY-MM-DD` of a date.
pub open spec fn spec_format_date(d: Date) -> Seq<char> {
    seq![
        spec_digit_char(d.year as int / 1000),
        spec_digit_char((d.year as int / 100) % 10),
        spec_digit_char((d.year as int / 10) % 10),
        spec_digit_char(d.year as int % 10),
        '-',
        spec_digit_char(d.month as int / 10),
        spec_digit_char(d.month as int % 10),
        '-',
        spec_digit_char(d.day as int / 10),
        spec_digit_char(d.day as int % 10),
    ]
}

impl Date {
    /// A real day of the calendar, with a four-digit year.
    pub open spec fn spec_valid(self) -> bool {
        &&& self.year <= 9999
        &&& 1 <= self.month <= 12
        &&& 1 <= self.day <= spec_days_in_month(self.year as int, self.month as int)
    }

    /// Chronological order, first by year, then month, then day.
    pub open spec fn spec_le(self, other: Date) -> bool {
        if self.year != other.year {
            self.year < other.year
        } else if self.month != other.month {
            self.month < other.month
        } else {
            self.day <= other.day
        }
    }

    /// Checks that this date names a real calendar day.
    pub fn valid(&self) -> (r: bool)
        ensures
            r == self.spec_valid(),
    {
        self.year <= 9999 && 1 <= self.month && self.month <= 12 && 1 <= self.day
            && self.day <= days_in_month(self.year, self.month)
    }

    /// Compares two dates chronologically.
    pub fn le(&self, other: &Date) -> (r: bool)
        ensures
            r == self.spec_le(*other),
    {
        if self.year != other.year {
            self.year < other.year
        } else if self.month != other.month {
            self.month < other.month
        } else {
            self.day <= other.day
        }
    }
}

/// Number of days in month `m` of year `y`.
pub fn days_in_month(y: u32, m: u32) -> (r: u32)
    ensures
        r == spec_days_in_month(y as int, m as int),
{
    if m == 2 {
        if (y % 4 == 0 && y % 100 != 0) || y % 400 == 0 {
            29
        } else {
            28
        }
    } else if m == 4 || m == 6 || m == 9 || m == 11 {
        30
    } else {
        31
    }
}

/// The character of one decimal digit, as a one-character slice.
fn digit_str(d: u32) -> (r: &'static str)
    requires
        d <= 9,
    ensures
        r@ =~= seq![spec_digit_char(d as int)],
{
    proof {
        reveal_strlit("0");
        reveal_strlit("1");
        reveal_strlit("2");
        reveal_strlit("3");
        reveal_strlit("4");
        reveal_strlit("5");
        reveal_strlit("6");
        reveal_strlit("7");
        reveal_strlit("8");
        reveal_strlit("9");
    }
    if d == 0 {
        "0"
    } else if d == 1 {
        "1"
    } else if d == 2 {
        "2"
    } else if d == 3 {
        "3"
    } else if d == 4 {
        "4"
    } else if d == 5 {
        "5"
    } else if d == 6 {
        "6"
    } else if d == 7 {
        "7"
    } else if d == 8 {
        "8"
    } else {
        "9"
    }
}

/// Writes a date as its ten characters `YYYY-MM-DD`.
pub fn format_date(d: &Date) -> (r: String)
    requires
        d.spec_valid(),
    ensures
        r@ == spec_format_date(*d),
{
    proof {
        reveal_strlit("-");
    }
    let mut s = String::new();
    s.append(digit_str(d.year / 1000));
    s.append(digit_str((d.year / 100) % 10));
    s.append(digit_str((d.year / 10) % 10));
    s.append(digit_str(d.year % 10));
    s.append("-");
    s.append(digit_str(d.month / 10));
    s.append(digit_str(d.month % 10));
    s.append("-");
    s.append(digit_str(d.day / 10));
    s.append(digit_str(d.day % 10));
    proof {
        assert(s@ =~= spec_format_date(*d));
    }
    s
}

/// Law: writing a valid date and reading it back yields the date
/// itself.
#[verifier::rlimit(100)]
pub proof fn lemma_date_round_trip(d: Date)
    requires
        d.spec_valid(),
    ensures
        spec_parse_date(spec_format_date(d)) == Some(d),
{
    let s = spec_format_date(d);
    assert(s.take(10) =~= s);
    assert(spec_date_shape(s));
    assert(spec_date_of_chars(s) == d) by {
        assert(spec_digit_val(spec_digit_char(d.year as int / 1000)) == d.year as int / 1000);
        assert(spec_digit_val(spec_digit_char((d.year as int / 100) % 10)) == (d.year as int / 100)
            % 10);
        assert(spec_digit_val(spec_digit_char((d.year as int / 10) % 10)) == (d.year as int / 10)
            % 10);
        assert(spec_digit_val(spec_digit_char(d.year as int % 10)) == d.year as int % 10);
        assert(spec_digit_val(spec_digit_char(d.month as int / 10)) == d.month as int / 10);
        assert(spec_digit_val(spec_digit_char(d.month as int % 10)) == d.month as int % 10);
        assert(spec_digit_val(spec_digit_char(d.day as int / 10)) == d.day as int / 10);
        assert(spec_digit_val(spec_digit_char(d.day as int % 10)) == d.day as int % 10);
        assert(d.year as int / 1000 * 1000 + (d.year as int / 100) % 10 * 100 + (d.year as int
            / 10) % 10 * 10 + d.year as int % 10 == d.year as int);
        assert(d.month as int / 10 * 10 + d.month as int % 10 == d.month as int);
        assert(d.day as int / 10 * 10 + d.day as int % 10 == d.day as int);
    };
}

/// Reads the decimal digit at position `i`.
fn digit_at(s: &str, i: usize, len: usize) -> (r: Option<u32>)
    requires
        i < len,
        len == s@.len(),
    ensures
        match r {
            Some(v) => spec_is_digit(s@[i as int]) && v == spec_digit_val(s@[i as int]),
            None => !spec_is_digit(s@[i as int]),
        },
{
    let c = s.get_char(i);
    if '0' <= c && c <= '9' {
        Some(c as u32 - 48)
    } else {
        None
    }
}

/// Parses the date portion of an ISO-8601 datetime string: the text
/// before the first `T` must be `YYYY-MM-DD` and name a real day.
pub fn parse_date(s: &str) -> (r: Option<Date>)
    ensures
        r == spec_parse_date(s@),
{
    let len = s.unicode_len();
    if !(len == 10 || (len > 10 && s.get_char(10) == 'T')) {
        return None;
    }
    let d0 = match digit_at(s, 0, len) {
        Some(v) => v,
        None => { return None },
    };
    let d1 = match digit_at(s, 1, len) {
        Some(v) => v,
        None => { return None },
    };
    let d2 = match digit_at(s, 2, len) {
        Some(v) => v,
        None => { return None },
    };
    let d3 = match digit_at(s, 3, len) {
        Some(v) => v,
        None => { return None },
    };
    if s.get_char(4) != '-' {
        return None;
    }
    let d5 = match digit_at(s, 5, len) {
        Some(v) => v,
        None => { return None },
    };
    let d6 = match digit_at(s, 6, len) {
        Some(v) => v,
        None => { return None },
    };
    if s.get_char(7) != '-' {
        return None;
    }
    let d8 = match digit_at(s, 8, len) {
        Some(v) => v,
        None => { return None },
    };
    let d9 = match digit_at(s, 9, len) {
        Some(v) => v,
        None => { return None },
    };
    let date = Date {
        year: d0 * 1000 + d1 * 100 + d2 * 10 + d3,
        month: d5 * 10 + d6,
        day: d8 * 10 + d9,
    };
    assert(s@.take(10)[0] == s@[0]);
    assert(spec_date_shape(s@.take(10)));
    assert(date == spec_date_of_chars(s@.take(10)));
    if date.valid() {
        Some(date)
    } else {
        None
    }
}

} // verus!
