use vstd::prelude::*;

use crate::text::{all_digits, lemma_pow10_values, number_at, read_number};

verus! {

pub open spec fn is_leap(y: int) -> bool {
    y % 4 == 0 && (y % 100 != 0 || y % 400 == 0)
}

pub open spec fn days_in_month(y: int, m: int) -> int {
    if m == 2 {
        if is_leap(y) {
            29
        } else {
            28
        }
    } else if m == 4 || m == 6 || m == 9 || m == 11 {
        30
    } else {
        31
    }
}

/// A valid calendar date with a four-digit year.
pub open spec fn valid_date(y: int, m: int, d: int) -> bool {
    &&& 0 <= y <= 9999
    &&& 1 <= m <= 12
    &&& 1 <= d <= days_in_month(y, m)
}

pub open spec fn year_length(y: int) -> int {
    if is_leap(y) {
        366
    } else {
        365
    }
}

/// Days from 1970-01-01 to the first day of year `y`; negative before 1970.
pub open spec fn days_before_year(y: int) -> int
    decreases (if y >= 1970 {
        y - 1970
    } else {
        1970 - y
    }),
{
    if y == 1970 {
        0
    } else if y > 1970 {
        days_before_year(y - 1) + year_length(y - 1)
    } else {
        days_before_year(y + 1) - year_length(y)
    }
}

/// Days from the first day of year `y` to the first day of its month `m`.
pub open spec fn days_before_month(y: int, m: int) -> int
    decreases m,
{
    if m <= 1 {
        0
    } else {
        days_before_month(y, m - 1) + days_in_month(y, m - 1)
    }
}

/// Days from 1970-01-01 to the date `y-m-d` of the proleptic Gregorian
/// calendar.
pub open spec fn days_from_civil(y: int, m: int, d: int) -> int {
    days_before_year(y) + days_before_month(y, m) + d - 1
}

/// The instant, in seconds since the Unix epoch, of a UTC date and time.
pub open spec fn seconds_of(y: int, m: int, d: int, hh: int, mm: int, ss: int) -> int {
    days_from_civil(y, m, d) * 86400 + hh * 3600 + mm * 60 + ss
}

/// `s` has a `YYYY-MM-DD` date at its start.
pub open spec fn date_shape(s: Seq<char>) -> bool {
    &&& s.len() >= 10
    &&& all_digits(s, 0, 4)
    &&& s[4] == '-'
    &&& all_digits(s, 5, 2)
    &&& s[7] == '-'
    &&& all_digits(s, 8, 2)
}

/// `s` has `YYYY-MM-DDTHH:MM:SS` at its start.
pub open spec fn clock_shape(s: Seq<char>) -> bool {
    &&& s.len() >= 19
    &&& date_shape(s)
    &&& s[10] == 'T'
    &&& all_digits(s, 11, 2)
    &&& s[13] == ':'
    &&& all_digits(s, 14, 2)
    &&& s[16] == ':'
    &&& all_digits(s, 17, 2)
}

/// `s` is `YYYY-MM-DDTHH:MM:SS+HH:MM` or `YYYY-MM-DDTHH:MM:SS-HH:MM`.
pub open spec fn offset_shape(s: Seq<char>) -> bool {
    &&& s.len() == 25
    &&& clock_shape(s)
    &&& (s[19] == '+' || s[19] == '-')
    &&& all_digits(s, 20, 2)
    &&& s[22] == ':'
    &&& all_digits(s, 23, 2)
}

/// `s` is `YYYY-MM-DDTHH:MM:SSZ`.
pub open spec fn date_time_shape(s: Seq<char>) -> bool {
    &&& s.len() == 20
    &&& date_shape(s)
    &&& s[10] == 'T'
    &&& all_digits(s, 11, 2)
    &&& s[13] == ':'
    &&& all_digits(s, 14, 2)
    &&& s[16] == ':'
    &&& all_digits(s, 17, 2)
    &&& s[19] == 'Z'
}

/// The instant that `s` writes in ISO-8601 form: a date `YYYY-MM-DD` (its
/// midnight, UTC), `YYYY-MM-DDTHH:MM:SSZ` (UTC), or
/// `YYYY-MM-DDTHH:MM:SS±HH:MM` (local time at that offset from UTC); `None`
/// for any other text, or for a date, time of day or offset that does not
/// exist.
pub open spec fn iso_instant(s: Seq<char>) -> Option<int> {
    let y = number_at(s, 0, 4);
    let m = number_at(s, 5, 2);
    let d = number_at(s, 8, 2);
    let hh = number_at(s, 11, 2);
    let mm = number_at(s, 14, 2);
    let ss = number_at(s, 17, 2);
    let oh = number_at(s, 20, 2);
    let om = number_at(s, 23, 2);
    if s.len() == 10 && date_shape(s) && valid_date(y, m, d) {
        Some(seconds_of(y, m, d, 0, 0, 0))
    } else if date_time_shape(s) && valid_date(y, m, d) && hh < 24 && mm < 60 && ss < 60 {
        Some(seconds_of(y, m, d, hh, mm, ss))
    } else if offset_shape(s) && valid_date(y, m, d) && hh < 24 && mm < 60 && ss < 60 && oh < 24
        && om < 60 {
        let offset = oh * 3600 + om * 60;
        if s[19] == '+' {
            Some(seconds_of(y, m, d, hh, mm, ss) - offset)
        } else {
            Some(seconds_of(y, m, d, hh, mm, ss) + offset)
        }
    } else {
        None
    }
}

/// The number of days of month `m` of year `y`.
pub fn month_length(y: i64, m: i64) -> (r: i64)
    requires
        0 <= y <= 9999,
        1 <= m <= 12,
    ensures
        r == days_in_month(y as int, m as int),
{
    if m == 2 {
        if y % 4 == 0 && (y % 100 != 0 || y % 400 == 0) {
            29
        } else {
            28
        }
    } else if m == 4 || m == 6 || m == 9 || m == 11 {
        30
    } else {
        31
    }
}

/// The number of days of year `y`.
fn year_days(y: i64) -> (r: i64)
    requires
        0 <= y <= 9999,
    ensures
        r == year_length(y as int),
{
    if y % 4 == 0 && (y % 100 != 0 || y % 400 == 0) {
        366
    } else {
        365
    }
}

/// Days from 1970-01-01 to the first day of year `y`.
pub fn days_to_year(y: i64) -> (r: i64)
    requires
        0 <= y <= 9999,
    ensures
        r == days_before_year(y as int),
        -366 * 1970 <= r <= 366 * 8029,
{
    let mut k: i64 = 1970;
    let mut days: i64 = 0;
    if y < 1970 {
        while k > y
            invariant
                0 <= y <= k <= 1970,
                days == days_before_year(k as int),
                -366 * (1970 - k) <= days <= 0,
            decreases k - y,
        {
            k = k - 1;
            days = days - year_days(k);
        }
        return days;
    }
    while k < y
        invariant
            1970 <= k <= y <= 9999,
            days == days_before_year(k as int),
            0 <= days <= 366 * (k - 1970),
        decreases y - k,
    {
        days = days + year_days(k);
        k = k + 1;
    }
    days
}

/// Days from the first day of year `y` to the first day of its month `m`.
pub fn days_to_month(y: i64, m: i64) -> (r: i64)
    requires
        0 <= y <= 9999,
        1 <= m <= 12,
    ensures
        r == days_before_month(y as int, m as int),
        0 <= r <= 31 * 11,
{
    let mut j: i64 = 1;
    let mut days: i64 = 0;
    while j < m
        invariant
            1 <= j <= m <= 12,
            0 <= y <= 9999,
            days == days_before_month(y as int, j as int),
            0 <= days <= 31 * (j - 1),
        decreases m - j,
    {
        days = days + month_length(y, j);
        j = j + 1;
    }
    days
}

/// The instant of a UTC date and time, in seconds since the Unix epoch.
pub fn seconds_since_epoch(y: i64, m: i64, d: i64, hh: i64, mm: i64, ss: i64) -> (r: i64)
    requires
        valid_date(y as int, m as int, d as int),
        0 <= hh < 24,
        0 <= mm < 60,
        0 <= ss < 60,
    ensures
        r == seconds_of(y as int, m as int, d as int, hh as int, mm as int, ss as int),
        -1_000_000_000_000 <= r <= 1_000_000_000_000,
{
    let days: i64 = days_to_year(y) + days_to_month(y, m) + d - 1;
    days * 86400 + hh * 3600 + mm * 60 + ss
}

/// Reads an ISO-8601 instant: `YYYY-MM-DD`, `YYYY-MM-DDTHH:MM:SSZ` or
/// `YYYY-MM-DDTHH:MM:SS±HH:MM`.
pub fn parse_iso_instant(cs: &Vec<char>) -> (r: Option<i64>)
    ensures
        r == match iso_instant(cs@) {
            Some(t) => Some(t as i64),
            None => None::<i64>,
        },
        iso_instant(cs@) matches Some(t) ==> i64::MIN <= t <= i64::MAX,
{
    let n = cs.len();
    if n != 10 && n != 20 && n != 25 {
        return None;
    }
    if cs[4] != '-' || cs[7] != '-' {
        return None;
    }
    let (y, m, d) = match (read_number(cs, 0, 4), read_number(cs, 5, 2), read_number(cs, 8, 2)) {
        (Some(y), Some(m), Some(d)) => (y, m, d),
        _ => return None,
    };
    proof {
        lemma_pow10_values();
    }
    if m < 1 || m > 12 || d < 1 || d > month_length(y, m) {
        return None;
    }
    if n == 10 {
        return Some(seconds_since_epoch(y, m, d, 0, 0, 0));
    }
    if cs[10] != 'T' || cs[13] != ':' || cs[16] != ':' {
        return None;
    }
    let (hh, mm, ss) = match (read_number(cs, 11, 2), read_number(cs, 14, 2), read_number(cs, 17, 2)) {
        (Some(hh), Some(mm), Some(ss)) => (hh, mm, ss),
        _ => return None,
    };
    if hh > 23 || mm > 59 || ss > 59 {
        return None;
    }
    let local = seconds_since_epoch(y, m, d, hh, mm, ss);
    if n == 20 {
        if cs[19] != 'Z' {
            return None;
        }
        return Some(local);
    }
    if (cs[19] != '+' && cs[19] != '-') || cs[22] != ':' {
        return None;
    }
    let (oh, om) = match (read_number(cs, 20, 2), read_number(cs, 23, 2)) {
        (Some(oh), Some(om)) => (oh, om),
        _ => return None,
    };
    if oh > 23 || om > 59 {
        return None;
    }
    if cs[19] == '+' {
        Some(local - (oh * 3600 + om * 60))
    } else {
        Some(local + (oh * 3600 + om * 60))
    }
}

/// Whether `cs` starts with something shaped like a date, `YYYY-MM-DD`.
pub fn starts_like_date(cs: &Vec<char>) -> (r: bool)
    ensures
        r == date_shape(cs@),
{
    if cs.len() < 10 || cs[4] != '-' || cs[7] != '-' {
        return false;
    }
    read_number(cs, 0, 4).is_some() && read_number(cs, 5, 2).is_some() && read_number(cs, 8, 2).is_some()
}

} // verus!
