//! Compact calendar dates.
//!
//! The enumeration tool reports each video's upload date as an eight-digit
//! `YYYYMMDD` string with no time of day and no timezone.  Such a date is
//! parsed as a proleptic-Gregorian calendar date and normalized to midnight
//! UTC, expressed as whole seconds since the Unix epoch.

use vstd::prelude::*;

verus! {

pub open spec fn is_leap_year(y: int) -> bool {
    (y % 4 == 0 && y % 100 != 0) || y % 400 == 0
}

pub open spec fn days_in_month(y: int, m: int) -> int {
    if m == 2 {
        if is_leap_year(y) {
            29
        } else {
            28
        }
    } else if m == 4 || m == 6 || m == 9 || m == 11 {
        30
    } else {
        31
    }
}

/// A calendar date the worker accepts: four-digit year from 1 on, and a
/// month/day pair that exists in that year.
pub open spec fn valid_ymd(y: int, m: int, d: int) -> bool {
    &&& 1 <= y <= 9999
    &&& 1 <= m <= 12
    &&& 1 <= d <= days_in_month(y, m)
}

/// Days between 1970-01-01 and the given date in the proleptic Gregorian
/// calendar (negative for earlier dates), by the standard era/cycle
/// formula: years are counted from March so the leap day is the last day
/// of the shifted year, and 146097 is the number of days in a 400-year era.
pub open spec fn days_from_civil(y: int, m: int, d: int) -> int {
    let yy = if m <= 2 {
        y - 1
    } else {
        y
    };
    let era = yy / 400;
    let yoe = yy - era * 400;
    let mp = if m > 2 {
        m - 3
    } else {
        m + 9
    };
    let doy = (153 * mp + 2) / 5 + d - 1;
    let doe = yoe * 365 + yoe / 4 - yoe / 100 + doy;
    era * 146097 + doe - 719468
}

/// Midnight UTC of the given date, in seconds since the Unix epoch.
pub open spec fn epoch_seconds(y: int, m: int, d: int) -> int {
    days_from_civil(y, m, d) * 86400
}

pub open spec fn is_digit(c: char) -> bool {
    '0' <= c && c <= '9'
}

pub open spec fn digit_val(c: char) -> int {
    c as int - '0' as int
}

pub open spec fn compact_year(s: Seq<char>) -> int {
    digit_val(s[0]) * 1000 + digit_val(s[1]) * 100 + digit_val(s[2]) * 10 + digit_val(s[3])
}

pub open spec fn compact_month(s: Seq<char>) -> int {
    digit_val(s[4]) * 10 + digit_val(s[5])
}

pub open spec fn compact_day(s: Seq<char>) -> int {
    digit_val(s[6]) * 10 + digit_val(s[7])
}

/// An upload-date string the worker accepts: exactly eight digits that
/// name an existing calendar date.
pub open spec fn valid_compact_date(s: Seq<char>) -> bool {
    &&& s.len() == 8
    &&& forall|i: int| 0 <= i < 8 ==> is_digit(#[trigger] s[i])
    &&& valid_ymd(compact_year(s), compact_month(s), compact_day(s))
}

/// The publication instant an eight-digit date string stands for.
pub open spec fn compact_date_epoch(s: Seq<char>) -> int {
    epoch_seconds(compact_year(s), compact_month(s), compact_day(s))
}

/// Exact bounds on the day count for every accepted date, so the second
/// conversion stays far inside `i64`.
proof fn lemma_days_from_civil_bounds(y: int, m: int, d: int)
    requires
        valid_ymd(y, m, d),
    ensures
        -719468 <= days_from_civil(y, m, d) <= 2933000,
{
    let yy = if m <= 2 {
        y - 1
    } else {
        y
    };
    assert(0 <= yy <= 9999);
    let era = yy / 400;
    let yoe = yy - era * 400;
    assert(0 <= era <= 24 && 0 <= yoe <= 399) by (nonlinear_arith)
        requires
            0 <= yy <= 9999,
            era == yy / 400,
            yoe == yy - era * 400,
    ;
    let mp = if m > 2 {
        m - 3
    } else {
        m + 9
    };
    assert(0 <= mp <= 11);
    let doy = (153 * mp + 2) / 5 + d - 1;
    assert(0 <= doy <= 366);
    let doe = yoe * 365 + yoe / 4 - yoe / 100 + doy;
    assert(0 <= doe <= 146100) by (nonlinear_arith)
        requires
            0 <= yoe <= 399,
            0 <= doy <= 366,
            doe == yoe * 365 + yoe / 4 - yoe / 100 + doy,
    ;
    assert(0 <= era * 146097 <= 24 * 146097) by (nonlinear_arith)
        requires
            0 <= era <= 24,
    ;
}

/// Compute the epoch-day number of a valid date, executable counterpart
/// of `days_from_civil`.
fn civil_to_days(y: u32, m: u32, d: u32) -> (days: i64)
    requires
        valid_ymd(y as int, m as int, d as int),
    ensures
        days == days_from_civil(y as int, m as int, d as int),
{
    let yy: u32 = if m <= 2 {
        y - 1
    } else {
        y
    };
    let era: u32 = yy / 400;
    let yoe: u32 = yy - era * 400;
    assert(era == yy as int / 400 && yoe == yy - (yy as int / 400) * 400 && era <= 24 && yoe
        <= 399) by (nonlinear_arith)
        requires
            0 <= yy <= 9999,
            era == yy / 400,
            yoe as int == yy as int - era as int * 400,
    ;
    let mp: u32 = if m > 2 {
        m - 3
    } else {
        m + 9
    };
    let doy: u32 = (153 * mp + 2) / 5 + d - 1;
    assert(yoe * 365 + yoe / 4 <= 399 * 365 + 99) by (nonlinear_arith)
        requires
            yoe <= 399,
    ;
    let doe: u32 = yoe * 365 + yoe / 4 - yoe / 100 + doy;
    assert(yoe as int / 100 <= yoe as int / 4) by (nonlinear_arith)
        requires
            0 <= yoe,
    ;
    let days: i64 = era as i64 * 146097 + doe as i64 - 719468;
    days
}

/// Number of days in the given month, executable counterpart of
/// `days_in_month`.
fn month_length(y: u32, m: u32) -> (n: u32)
    requires
        1 <= m <= 12,
    ensures
        n == days_in_month(y as int, m as int),
{
    if m == 2 {
        if (y % 4 == 0 && y % 100 != 0) || y % 400 == 0 {
            29
        } else {
            28
        }
    } else if m == 4 || m == 6 || m == 9 || m == 11 {
        30
    } else {
        31
    }
}

/// In an all-ASCII string, the byte read at a position is the character's
/// code, so digit tests on bytes and on characters agree.
proof fn ascii_char_code(s: Seq<char>, i: int, b: u8)
    requires
        vstd::utf8::is_ascii_chars(s),
        0 <= i < s.len(),
        b == s[i] as u8,
    ensures
        (48 <= b <= 57) == is_digit(s[i]),
        is_digit(s[i]) ==> b as int - 48 == digit_val(s[i]),
{
    assert(s[i] <= '\u{7f}');
    assert(s[i] as int <= 127);
}

/// A string with a character outside ASCII has a character that is not a
/// digit.
proof fn not_ascii_has_non_digit(s: Seq<char>)
    requires
        !vstd::utf8::is_ascii_chars(s),
    ensures
        exists|i: int| 0 <= i < s.len() && !is_digit(#[trigger] s[i]),
{
    let i = choose|i: int| 0 <= i < s.len() && !('\0' <= #[trigger] s[i] <= '\u{7f}');
    assert(!is_digit(s[i]));
}

/// Parse an eight-digit `YYYYMMDD` string.  Returns the date's midnight
/// UTC as seconds since the Unix epoch exactly for the accepted strings,
/// and `None` for every other string.
pub fn parse_date(date: &str) -> (r: Option<i64>)
    ensures
        r is Some <==> valid_compact_date(date@),
        r matches Some(t) ==> t == compact_date_epoch(date@),
{
    if !date.is_ascii() {
        proof {
            not_ascii_has_non_digit(date@);
        }
        return Option::None;
    }
    let n = date.unicode_len();
    if n != 8 {
        return Option::None;
    }
    let mut i: usize = 0;
    while i < 8
        invariant
            i <= 8,
            date@.len() == 8,
            vstd::string::is_ascii(date),
            forall|j: int| 0 <= j < i ==> is_digit(#[trigger] date@[j]),
        decreases 8 - i,
    {
        let b = date.get_ascii(i);
        proof {
            ascii_char_code(date@, i as int, b);
        }
        if b < 48 || b > 57 {
            return Option::None;
        }
        i = i + 1;
    }
    let b0 = date.get_ascii(0);
    let b1 = date.get_ascii(1);
    let b2 = date.get_ascii(2);
    let b3 = date.get_ascii(3);
    let b4 = date.get_ascii(4);
    let b5 = date.get_ascii(5);
    let b6 = date.get_ascii(6);
    let b7 = date.get_ascii(7);
    proof {
        ascii_char_code(date@, 0, b0);
        ascii_char_code(date@, 1, b1);
        ascii_char_code(date@, 2, b2);
        ascii_char_code(date@, 3, b3);
        ascii_char_code(date@, 4, b4);
        ascii_char_code(date@, 5, b5);
        ascii_char_code(date@, 6, b6);
        ascii_char_code(date@, 7, b7);
    }
    let y: u32 = (b0 - 48) as u32 * 1000 + (b1 - 48) as u32 * 100 + (b2 - 48) as u32 * 10 + (b3
        - 48) as u32;
    let m: u32 = (b4 - 48) as u32 * 10 + (b5 - 48) as u32;
    let d: u32 = (b6 - 48) as u32 * 10 + (b7 - 48) as u32;
    assert(y == compact_year(date@));
    assert(m == compact_month(date@));
    assert(d == compact_day(date@));
    if y < 1 || m < 1 || m > 12 || d < 1 {
        return Option::None;
    }
    let dim: u32 = month_length(y, m);
    if d > dim {
        return Option::None;
    }
    proof {
        lemma_days_from_civil_bounds(y as int, m as int, d as int);
    }
    Option::Some(civil_to_days(y, m, d) * 86400)
}

} // verus!
