//! Calendar dates in the proleptic Gregorian calendar, years 0 through 9999,
//! with conversion to an absolute day number for date arithmetic.

use vstd::prelude::*;

verus! {

use vstd::arithmetic::div_mod::lemma_fundamental_div_mod_converse;

/// A calendar date: year, month and day, no time or timezone component.
#[derive(Clone, Copy, Debug, PartialEq, Eq, Structural)]
pub struct Date {
    pub year: u16,
    pub month: u8,
    pub day: u8,
}

/// A calendar year is a leap year when it is divisible by 4, except
/// centuries, which are leap years only when divisible by 400.
pub open spec fn is_leap_year(y: int) -> bool {
    y % 4 == 0 && (y % 100 != 0 || y % 400 == 0)
}

pub open spec fn days_in_year(y: int) -> int {
    if is_leap_year(y) {
        366
    } else {
        365
    }
}

pub open spec fn days_in_month(y: int, m: int) -> int {
    if m == 2 {
        if is_leap_year(y) {
            29
        } else {
            28
        }
    } else if m == 4 || m == 6 || m == 9 || m == 11 {
        30
    } else {
        31
    }
}

/// The dates this library accepts: the four-digit years, with month and day
/// in range for the Gregorian calendar.
pub open spec fn date_valid(d: Date) -> bool {
    d.year <= 9999 && 1 <= d.month <= 12 && 1 <= d.day <= days_in_month(
        d.year as int,
        d.month as int,
    )
}

/// Days in all years before `y`, counting from year 0.
pub open spec fn days_before_year(y: int) -> int
    decreases y,
{
    if y <= 0 {
        0
    } else {
        days_before_year(y - 1) + days_in_year(y - 1)
    }
}

/// Days in all months of year `y` before month `m`.
pub open spec fn days_before_month(y: int, m: int) -> int
    decreases m,
{
    if m <= 1 {
        0
    } else {
        days_before_month(y, m - 1) + days_in_month(y, m - 1)
    }
}

/// The absolute day number of a date: days elapsed since the first day of
/// year 0. Dates compare and subtract as their day numbers do.
pub open spec fn day_number(d: Date) -> int {
    days_before_year(d.year as int) + days_before_month(d.year as int, d.month as int) + d.day - 1
}

proof fn lemma_days_before_year_bound(y: int)
    requires
        0 <= y,
    ensures
        365 * y <= days_before_year(y) <= 366 * y,
    decreases y,
{
    if y > 0 {
        lemma_days_before_year_bound(y - 1);
    }
}

proof fn lemma_days_before_month_bound(y: int, m: int)
    requires
        1 <= m,
    ensures
        0 <= days_before_month(y, m) <= 31 * (m - 1),
    decreases m,
{
    if m > 1 {
        lemma_days_before_month_bound(y, m - 1);
    }
}

fn leap_year(y: u16) -> (r: bool)
    ensures
        r == is_leap_year(y as int),
{
    y % 4 == 0 && (y % 100 != 0 || y % 400 == 0)
}

/// The number of days of month `m` in year `y`.
pub fn month_length(y: u16, m: u8) -> (r: u8)
    ensures
        r as int == days_in_month(y as int, m as int),
{
    if m == 2 {
        if leap_year(y) {
            29
        } else {
            28
        }
    } else if m == 4 || m == 6 || m == 9 || m == 11 {
        30
    } else {
        31
    }
}

pub open spec fn is_digit(c: char) -> bool {
    '0' as int <= c as int <= '9' as int
}

pub open spec fn digit_val(c: char) -> int {
    c as int - '0' as int
}

pub open spec fn digit_char(v: int) -> char {
    if v == 0 {
        '0'
    } else if v == 1 {
        '1'
    } else if v == 2 {
        '2'
    } else if v == 3 {
        '3'
    } else if v == 4 {
        '4'
    } else if v == 5 {
        '5'
    } else if v == 6 {
        '6'
    } else if v == 7 {
        '7'
    } else if v == 8 {
        '8'
    } else {
        '9'
    }
}

/// The date written in a `YYYY-MM-DD` string, assuming the digit layout.
pub open spec fn date_of_string(s: Seq<char>) -> Date {
    Date {
        year: (digit_val(s[0]) * 1000 + digit_val(s[1]) * 100 + digit_val(s[2]) * 10 + digit_val(
            s[3],
        )) as u16,
        month: (digit_val(s[5]) * 10 + digit_val(s[6])) as u8,
        day: (digit_val(s[8]) * 10 + digit_val(s[9])) as u8,
    }
}

/// A well-formed expiry string: exactly `YYYY-MM-DD`, naming a valid date.
pub open spec fn valid_date_string(s: Seq<char>) -> bool {
    &&& s.len() == 10
    &&& is_digit(s[0])
    &&& is_digit(s[1])
    &&& is_digit(s[2])
    &&& is_digit(s[3])
    &&& s[4] == '-'
    &&& is_digit(s[5])
    &&& is_digit(s[6])
    &&& s[7] == '-'
    &&& is_digit(s[8])
    &&& is_digit(s[9])
    &&& date_valid(date_of_string(s))
}

/// The canonical `YYYY-MM-DD` rendering of a date.
pub open spec fn date_string(d: Date) -> Seq<char> {
    seq![
        digit_char(d.year as int / 1000),
        digit_char((d.year as int / 100) % 10),
        digit_char((d.year as int / 10) % 10),
        digit_char(d.year as int % 10),
        '-',
        digit_char(d.month as int / 10),
        digit_char(d.month as int % 10),
        '-',
        digit_char(d.day as int / 10),
        digit_char(d.day as int % 10),
    ]
}

/// The absolute day number of a valid date, as executable arithmetic.
pub fn date_day_number(d: Date) -> (n: u32)
    requires
        date_valid(d),
    ensures
        n as int == day_number(d),
{
    proof {
        lemma_days_before_year_bound(d.year as int);
        lemma_days_before_month_bound(d.year as int, d.month as int);
    }
    let mut acc: u32 = 0;
    let mut y: u16 = 0;
    while y < d.year
        invariant
            y <= d.year <= 9999,
            acc as int == days_before_year(y as int),
        decreases d.year - y,
    {
        proof {
            lemma_days_before_year_bound(y as int + 1);
        }
        if leap_year(y) {
            acc = acc + 366;
        } else {
            acc = acc + 365;
        }
        y = y + 1;
    }
    let mut m: u8 = 1;
    while m < d.month
        invariant
            1 <= m <= d.month <= 12,
            d.year <= 9999,
            acc as int == days_before_year(d.year as int) + days_before_month(
                d.year as int,
                m as int,
            ),
        decreases d.month - m,
    {
        proof {
            lemma_days_before_year_bound(d.year as int);
            lemma_days_before_month_bound(d.year as int, m as int + 1);
        }
        acc = acc + month_length(d.year, m) as u32;
        m = m + 1;
    }
    acc + d.day as u32 - 1
}

/// The difference of two dates in whole calendar days, positive when
/// `expires` lies after `today`.
pub fn days_between(expires: Date, today: Date) -> (r: i64)
    requires
        date_valid(expires),
        date_valid(today),
    ensures
        r as int == day_number(expires) - day_number(today),
{
    let a = date_day_number(expires);
    let b = date_day_number(today);
    a as i64 - b as i64
}

fn digit_of(c: char) -> (r: Option<u8>)
    ensures
        r.is_some() == is_digit(c),
        r.is_some() ==> r.unwrap() as int == digit_val(c),
{
    let v = c as u32;
    if 48 <= v && v <= 57 {
        Some((v - 48) as u8)
    } else {
        None
    }
}

/// Parses a `YYYY-MM-DD` string; returns the date exactly when the string is
/// well formed and names a valid calendar date.
pub fn parse_date(s: &str) -> (r: Option<Date>)
    ensures
        r.is_some() == valid_date_string(s@),
        r.is_some() ==> r.unwrap() == date_of_string(s@) && date_valid(r.unwrap()),
{
    if s.unicode_len() != 10 {
        return None;
    }
    if s.get_char(4) != '-' || s.get_char(7) != '-' {
        return None;
    }
    let d0 = digit_of(s.get_char(0));
    let d1 = digit_of(s.get_char(1));
    let d2 = digit_of(s.get_char(2));
    let d3 = digit_of(s.get_char(3));
    let d5 = digit_of(s.get_char(5));
    let d6 = digit_of(s.get_char(6));
    let d8 = digit_of(s.get_char(8));
    let d9 = digit_of(s.get_char(9));
    match (d0, d1, d2, d3, d5, d6, d8, d9) {
        (
            Some(d0),
            Some(d1),
            Some(d2),
            Some(d3),
            Some(d5),
            Some(d6),
            Some(d8),
            Some(d9),
        ) => {
            let year: u16 = d0 as u16 * 1000 + d1 as u16 * 100 + d2 as u16 * 10 + d3 as u16;
            let month: u8 = d5 * 10 + d6;
            let day: u8 = d8 * 10 + d9;
            if 1 <= month && month <= 12 && 1 <= day && day <= month_length(year, month) {
                Some(Date { year, month, day })
            } else {
                None
            }
        },
        _ => None,
    }
}

pub(crate) fn digit_str(v: u8) -> (r: &'static str)
    requires
        v < 10,
    ensures
        r@ == seq![digit_char(v as int)],
{
    proof {
        reveal_strlit("0");
        reveal_strlit("1");
        reveal_strlit("2");
        reveal_strlit("3");
        reveal_strlit("4");
        reveal_strlit("5");
        reveal_strlit("6");
        reveal_strlit("7");
        reveal_strlit("8");
        reveal_strlit("9");
    }
    let r = match v {
        0 => "0",
        1 => "1",
        2 => "2",
        3 => "3",
        4 => "4",
        5 => "5",
        6 => "6",
        7 => "7",
        8 => "8",
        _ => "9",
    };
    proof {
        assert(r@ =~= seq![digit_char(v as int)]);
    }
    r
}

/// Renders a valid date as its canonical `YYYY-MM-DD` string.
pub fn render_date(d: Date) -> (r: String)
    requires
        date_valid(d),
    ensures
        r@ == date_string(d),
{
    proof {
        reveal_strlit("-");
    }
    let mut out = String::new();
    out.append(digit_str((d.year / 1000) as u8));
    out.append(digit_str(((d.year / 100) % 10) as u8));
    out.append(digit_str(((d.year / 10) % 10) as u8));
    out.append(digit_str((d.year % 10) as u8));
    out.append("-");
    out.append(digit_str(d.month / 10));
    out.append(digit_str(d.month % 10));
    out.append("-");
    out.append(digit_str(d.day / 10));
    out.append(digit_str(d.day % 10));
    proof {
        assert(out@ =~= date_string(d));
    }
    out
}

/// Calendar order on dates: by year, then month, then day.
pub open spec fn date_lt(a: Date, b: Date) -> bool {
    ||| a.year < b.year
    ||| (a.year == b.year && a.month < b.month)
    ||| (a.year == b.year && a.month == b.month && a.day < b.day)
}

proof fn lemma_days_before_month_mono(y: int, m1: int, m2: int)
    requires
        1 <= m1 < m2 <= 13,
    ensures
        days_before_month(y, m1) + days_in_month(y, m1) <= days_before_month(y, m2),
    decreases m2,
{
    if m2 > m1 + 1 {
        lemma_days_before_month_mono(y, m1, m2 - 1);
    }
}

proof fn lemma_days_before_year_mono(y1: int, y2: int)
    requires
        0 <= y1 <= y2,
    ensures
        days_before_year(y1) <= days_before_year(y2),
    decreases y2,
{
    if y1 < y2 {
        lemma_days_before_year_mono(y1, y2 - 1);
    }
}

proof fn lemma_months_fill_year(y: int)
    ensures
        days_before_month(y, 13) == days_in_year(y),
{
    reveal_with_fuel(days_before_month, 14);
}

proof fn lemma_date_lt_day_number(a: Date, b: Date)
    requires
        date_valid(a),
        date_valid(b),
    ensures
        date_lt(a, b) ==> day_number(a) < day_number(b),
{
    if date_lt(a, b) {
        let ya = a.year as int;
        let yb = b.year as int;
        if ya == yb {
            if a.month < b.month {
                lemma_days_before_month_mono(ya, a.month as int, b.month as int);
            }
        } else {
            lemma_days_before_month_mono(ya, a.month as int, 13);
            lemma_months_fill_year(ya);
            lemma_days_before_year_mono(ya + 1, yb);
            lemma_days_before_month_bound(yb, b.month as int);
        }
    }
}

/// The day number orders dates exactly as the calendar does: comparing day
/// numbers, as the due-record query does, is comparing dates.
pub proof fn lemma_day_number_orders_dates(a: Date, b: Date)
    requires
        date_valid(a),
        date_valid(b),
    ensures
        day_number(a) < day_number(b) <==> date_lt(a, b),
        day_number(a) == day_number(b) <==> a == b,
{
    lemma_date_lt_day_number(a, b);
    lemma_date_lt_day_number(b, a);
}

/// A moment in time: a calendar date with a time of day, no timezone.
#[derive(Clone, Copy, Debug, PartialEq, Eq, Structural)]
pub struct Timestamp {
    pub date: Date,
    pub hour: u8,
    pub minute: u8,
    pub second: u8,
}

pub open spec fn timestamp_valid(t: Timestamp) -> bool {
    date_valid(t.date) && t.hour < 24 && t.minute < 60 && t.second < 60
}

/// Timestamps compare as their second counts from the start of year 0.
pub open spec fn timestamp_seconds(t: Timestamp) -> int {
    day_number(t.date) * 86400 + t.hour * 3600 + t.minute * 60 + t.second
}

/// Executable range check matching `date_valid`.
pub fn date_in_range(d: Date) -> (r: bool)
    ensures
        r == date_valid(d),
{
    d.year <= 9999 && 1 <= d.month && d.month <= 12 && 1 <= d.day && d.day <= month_length(
        d.year,
        d.month,
    )
}

/// Executable range check matching `timestamp_valid`.
pub fn timestamp_in_range(t: Timestamp) -> (r: bool)
    ensures
        r == timestamp_valid(t),
{
    date_in_range(t.date) && t.hour < 24 && t.minute < 60 && t.second < 60
}

pub open spec fn two_digits(v: int) -> Seq<char> {
    seq![digit_char(v / 10), digit_char(v % 10)]
}

/// The canonical `YYYY-MM-DD HH:MM:SS` rendering of a timestamp.
pub open spec fn timestamp_string(t: Timestamp) -> Seq<char> {
    date_string(t.date) + seq![' '] + two_digits(t.hour as int) + seq![':'] + two_digits(
        t.minute as int,
    ) + seq![':'] + two_digits(t.second as int)
}

/// Renders a valid timestamp as its canonical `YYYY-MM-DD HH:MM:SS` string.
pub fn render_timestamp(t: Timestamp) -> (r: String)
    requires
        timestamp_valid(t),
    ensures
        r@ == timestamp_string(t),
{
    proof {
        reveal_strlit(" ");
        reveal_strlit(":");
    }
    let mut out = render_date(t.date);
    out.append(" ");
    out.append(digit_str(t.hour / 10));
    out.append(digit_str(t.hour % 10));
    out.append(":");
    out.append(digit_str(t.minute / 10));
    out.append(digit_str(t.minute % 10));
    out.append(":");
    out.append(digit_str(t.second / 10));
    out.append(digit_str(t.second % 10));
    proof {
        assert(out@ =~= timestamp_string(t));
    }
    out
}

/// The timestamp written in a `YYYY-MM-DD HH:MM:SS` string, assuming the
/// digit layout.
pub open spec fn timestamp_of_string(s: Seq<char>) -> Timestamp {
    Timestamp {
        date: date_of_string(s.subrange(0, 10)),
        hour: (digit_val(s[11]) * 10 + digit_val(s[12])) as u8,
        minute: (digit_val(s[14]) * 10 + digit_val(s[15])) as u8,
        second: (digit_val(s[17]) * 10 + digit_val(s[18])) as u8,
    }
}

/// A well-formed notification time: exactly `YYYY-MM-DD HH:MM:SS`, naming a
/// valid timestamp.
pub open spec fn valid_timestamp_string(s: Seq<char>) -> bool {
    &&& s.len() == 19
    &&& valid_date_string(s.subrange(0, 10))
    &&& s[10] == ' '
    &&& is_digit(s[11])
    &&& is_digit(s[12])
    &&& s[13] == ':'
    &&& is_digit(s[14])
    &&& is_digit(s[15])
    &&& s[16] == ':'
    &&& is_digit(s[17])
    &&& is_digit(s[18])
    &&& timestamp_valid(timestamp_of_string(s))
}

/// Parses a `YYYY-MM-DD HH:MM:SS` string; returns the timestamp exactly
/// when the string is well formed and names a valid moment.
pub fn parse_timestamp(s: &str) -> (r: Option<Timestamp>)
    ensures
        r.is_some() == valid_timestamp_string(s@),
        r.is_some() ==> r.unwrap() == timestamp_of_string(s@) && timestamp_valid(r.unwrap()),
{
    if s.unicode_len() != 19 {
        return None;
    }
    let date_part = s.substring_char(0, 10);
    proof {
        assert(date_part@ =~= s@.subrange(0, 10));
    }
    let date = match parse_date(date_part) {
        None => {
            return None;
        },
        Some(d) => d,
    };
    if s.get_char(10) != ' ' || s.get_char(13) != ':' || s.get_char(16) != ':' {
        return None;
    }
    let p = (
        digit_of(s.get_char(11)),
        digit_of(s.get_char(12)),
        digit_of(s.get_char(14)),
        digit_of(s.get_char(15)),
        digit_of(s.get_char(17)),
        digit_of(s.get_char(18)),
    );
    match p {
        (Some(h1), Some(h2), Some(m1), Some(m2), Some(s1), Some(s2)) => {
            let ts = Timestamp {
                date,
                hour: h1 * 10 + h2,
                minute: m1 * 10 + m2,
                second: s1 * 10 + s2,
            };
            if ts.hour < 24 && ts.minute < 60 && ts.second < 60 {
                Some(ts)
            } else {
                None
            }
        },
        _ => None,
    }
}

/// Rendering a well-formed expiry string's date gives the string back: the
/// canonical form is the only accepted form, so parsing loses nothing.
pub proof fn lemma_date_string_round_trip(s: Seq<char>)
    requires
        valid_date_string(s),
    ensures
        date_string(date_of_string(s)) == s,
{
    let d = date_of_string(s);
    let y = d.year as int;
    let v0 = digit_val(s[0]);
    let v1 = digit_val(s[1]);
    let v2 = digit_val(s[2]);
    let v3 = digit_val(s[3]);
    assert(y == v0 * 1000 + v1 * 100 + v2 * 10 + v3);
    lemma_fundamental_div_mod_converse(y, 1000, v0, v1 * 100 + v2 * 10 + v3);
    lemma_fundamental_div_mod_converse(y, 100, v0 * 10 + v1, v2 * 10 + v3);
    lemma_fundamental_div_mod_converse(y, 10, v0 * 100 + v1 * 10 + v2, v3);
    lemma_fundamental_div_mod_converse(v0 * 10 + v1, 10, v0, v1);
    lemma_fundamental_div_mod_converse(v0 * 100 + v1 * 10 + v2, 10, v0 * 10 + v1, v2);
    let m = d.month as int;
    let v5 = digit_val(s[5]);
    let v6 = digit_val(s[6]);
    lemma_fundamental_div_mod_converse(m, 10, v5, v6);
    let dd = d.day as int;
    let v8 = digit_val(s[8]);
    let v9 = digit_val(s[9]);
    lemma_fundamental_div_mod_converse(dd, 10, v8, v9);
    assert forall|c: char| is_digit(c) implies digit_char(digit_val(c)) == c by {
        assert(c as int - '0' as int <= 9);
    }
    assert(date_string(d) =~= s);
}

} // verus!
