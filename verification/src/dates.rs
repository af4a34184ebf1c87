//! Calendar dates and date-times as plain values, with the `chrono` calls
//! that parse and print them.
use vstd::prelude::*;
use chrono::{Datelike, Timelike};

verus! {

/// Smallest year a `chrono::NaiveDate` can hold.
pub open spec fn min_year() -> int {
    -262143
}

/// Largest year a `chrono::NaiveDate` can hold.
pub open spec fn max_year() -> int {
    262142
}

/// Leap years of the proleptic Gregorian calendar.
pub open spec fn is_leap_year(y: int) -> bool {
    y % 4 == 0 && (y % 100 != 0 || y % 400 == 0)
}

/// Number of days of month `m` (1..=12) of year `y`.
pub open spec fn days_in_month(y: int, m: int) -> int {
    if m == 2 {
        if is_leap_year(y) { 29 } else { 28 }
    } else if m == 4 || m == 6 || m == 9 || m == 11 {
        30
    } else {
        31
    }
}

/// The year, month and day that make a date `chrono` can represent.
pub open spec fn valid_ymd(y: int, m: int, d: int) -> bool {
    &&& min_year() <= y <= max_year()
    &&& 1 <= m <= 12
    &&& 1 <= d <= days_in_month(y, m)
}

/// A time of day as `chrono::NaiveTime` accepts it (a nanosecond count of a
/// second or more marks a leap second, which only the 59th second can carry).
pub open spec fn valid_hmsn(h: int, mi: int, s: int, n: int) -> bool {
    &&& 0 <= h < 24
    &&& 0 <= mi < 60
    &&& 0 <= s < 60
    &&& 0 <= n < 2_000_000_000
    &&& (n >= 1_000_000_000 ==> s == 59)
}

/// The decimal digit `n` (0..=9).
pub open spec fn digit_char(n: int) -> char {
    if n == 0 { '0' }
    else if n == 1 { '1' }
    else if n == 2 { '2' }
    else if n == 3 { '3' }
    else if n == 4 { '4' }
    else if n == 5 { '5' }
    else if n == 6 { '6' }
    else if n == 7 { '7' }
    else if n == 8 { '8' }
    else { '9' }
}

/// Decimal digits of a natural number, without leading zeros ("0" for zero).
pub open spec fn decimal(n: nat) -> Seq<char>
    decreases n,
{
    if n < 10 {
        seq![digit_char(n as int)]
    } else {
        decimal(n / 10) + seq![digit_char((n % 10) as int)]
    }
}

/// `s` left-padded with `'0'` to at least `width` characters.
pub open spec fn zero_pad(s: Seq<char>, width: nat) -> Seq<char> {
    if s.len() >= width {
        s
    } else {
        Seq::new((width - s.len()) as nat, |i: int| '0') + s
    }
}

/// Two-digit form of `n` (0..=99).
pub open spec fn two_digits(n: int) -> Seq<char> {
    seq![digit_char(n / 10), digit_char(n % 10)]
}

/// How `chrono` writes a year: four digits for 0..=9999, otherwise an
/// explicit sign followed by at least four digits.
pub open spec fn year_text(y: int) -> Seq<char> {
    if 0 <= y <= 9999 {
        zero_pad(decimal(y as nat), 4)
    } else if y < 0 {
        seq!['-'] + zero_pad(decimal((-y) as nat), 4)
    } else {
        seq!['+'] + zero_pad(decimal(y as nat), 4)
    }
}

/// `YYYY-MM-DD`, the form `chrono` prints a date in (`Display`, `%Y-%m-%d`).
pub open spec fn date_text_of(y: int, m: int, d: int) -> Seq<char> {
    year_text(y) + seq!['-'] + two_digits(m) + seq!['-'] + two_digits(d)
}

/// `YYYY-MM-DD HH:MM:SS`, as `%Y-%m-%d %H:%M:%S` prints a date-time (a leap
/// second prints as second 60).
pub open spec fn datetime_text_of(y: int, mo: int, d: int, h: int, mi: int, s: int, n: int) -> Seq<char> {
    date_text_of(y, mo, d) + seq![' '] + two_digits(h) + seq![':'] + two_digits(mi) + seq![':']
        + two_digits(s + n / 1_000_000_000)
}

/// What `chrono::NaiveDate::parse_from_str(s, fmt)` yields, as (year, month, day).
pub uninterp spec fn chrono_parse_date(s: Seq<char>, fmt: Seq<char>) -> Option<(int, int, int)>;

/// What `chrono::NaiveDateTime::parse_from_str(s, fmt)` yields, as
/// (year, month, day, hour, minute, second, nanosecond).
pub uninterp spec fn chrono_parse_datetime(s: Seq<char>, fmt: Seq<char>) -> Option<(int, int, int, int, int, int, int)>;

/// A calendar date that `chrono` can represent.
#[derive(Clone, Copy, Debug, PartialEq, Eq, Structural)]
pub struct Date {
    year: i32,
    month: u32,
    day: u32,
}

impl View for Date {
    type V = (int, int, int);

    closed spec fn view(&self) -> (int, int, int) {
        (self.year as int, self.month as int, self.day as int)
    }
}

impl Date {
    #[verifier::type_invariant]
    closed spec fn inv(self) -> bool {
        valid_ymd(self.year as int, self.month as int, self.day as int)
    }

    /// The date with the given year, month and day, if it exists
    /// (as `chrono::NaiveDate::from_ymd_opt`).
    pub fn from_ymd_opt(year: i32, month: u32, day: u32) -> (r: Option<Date>)
        ensures
            r is Some <==> valid_ymd(year as int, month as int, day as int),
            r matches Some(d) ==> d@ == (year as int, month as int, day as int),
    {
        if year < -262143 || year > 262142 || month < 1 || month > 12 || day < 1 {
            return None;
        }
        let leap = year % 4 == 0 && (year % 100 != 0 || year % 400 == 0);
        let days: u32 = if month == 2 {
            if leap { 29 } else { 28 }
        } else if month == 4 || month == 6 || month == 9 || month == 11 {
            30
        } else {
            31
        };
        if day > days {
            None
        } else {
            Some(Date { year, month, day })
        }
    }

    pub fn year(&self) -> (r: i32)
        ensures
            r == self@.0,
    {
        self.year
    }

    pub fn month(&self) -> (r: u32)
        ensures
            r == self@.1,
    {
        self.month
    }

    pub fn day(&self) -> (r: u32)
        ensures
            r == self@.2,
    {
        self.day
    }

    /// The date as `YYYY-MM-DD`.
    pub fn to_string(&self) -> (r: String)
        ensures
            r@ == date_text_of(self@.0, self@.1, self@.2),
    {
        proof { use_type_invariant(self); }
        date_text(self.year, self.month, self.day)
    }

    /// Parses `s` with the `chrono` format `fmt`.
    pub fn parse_from_str(s: &str, fmt: &str) -> (r: Option<Date>)
        ensures
            r matches Some(d) ==> chrono_parse_date(s@, fmt@) == Some(d@),
            r is None ==> chrono_parse_date(s@, fmt@) is None,
    {
        match parse_date(s, fmt) {
            Some((year, month, day)) => Some(Date { year, month, day }),
            None => None,
        }
    }
}

/// A date and a time of day, as `chrono::NaiveDateTime` holds them.
#[derive(Clone, Copy, Debug, PartialEq, Eq, Structural)]
pub struct DateTime {
    date: Date,
    hour: u32,
    minute: u32,
    second: u32,
    nanosecond: u32,
}

impl View for DateTime {
    /// (year, month, day, hour, minute, second, nanosecond)
    type V = (int, int, int, int, int, int, int);

    closed spec fn view(&self) -> (int, int, int, int, int, int, int) {
        (
            self.date@.0,
            self.date@.1,
            self.date@.2,
            self.hour as int,
            self.minute as int,
            self.second as int,
            self.nanosecond as int,
        )
    }
}

impl DateTime {
    #[verifier::type_invariant]
    closed spec fn inv(self) -> bool {
        valid_hmsn(self.hour as int, self.minute as int, self.second as int, self.nanosecond as int)
    }

    /// The calendar date part.
    pub fn date(&self) -> (r: Date)
        ensures
            r@ == (self@.0, self@.1, self@.2),
    {
        self.date
    }

    /// `date` at the given time of day, if that time exists (as
    /// `NaiveDate::and_hms_nano_opt`).
    pub fn from_parts(date: Date, hour: u32, minute: u32, second: u32, nanosecond: u32) -> (r: Option<DateTime>)
        ensures
            r is Some <==> valid_hmsn(hour as int, minute as int, second as int, nanosecond as int),
            r matches Some(t) ==> t@ == (date@.0, date@.1, date@.2, hour as int, minute as int, second as int, nanosecond as int),
    {
        if hour >= 24 || minute >= 60 || second >= 60 || nanosecond >= 2_000_000_000
            || (nanosecond >= 1_000_000_000 && second != 59) {
            None
        } else {
            Some(DateTime { date, hour, minute, second, nanosecond })
        }
    }

    pub fn hour(&self) -> (r: u32)
        ensures
            r == self@.3,
    {
        self.hour
    }

    pub fn minute(&self) -> (r: u32)
        ensures
            r == self@.4,
    {
        self.minute
    }

    pub fn second(&self) -> (r: u32)
        ensures
            r == self@.5,
    {
        self.second
    }

    pub fn nanosecond(&self) -> (r: u32)
        ensures
            r == self@.6,
    {
        self.nanosecond
    }

    /// Midnight of `date` (as `NaiveDate::and_hms_opt(0, 0, 0)`).
    pub fn midnight(date: Date) -> (r: DateTime)
        ensures
            r@ == (date@.0, date@.1, date@.2, 0int, 0int, 0int, 0int),
    {
        DateTime { date, hour: 0, minute: 0, second: 0, nanosecond: 0 }
    }

    /// The date-time written as `YYYY-MM-DD HH:MM:SS`.
    pub fn to_seconds_string(&self) -> (r: String)
        ensures
            r@ == datetime_text_of(self@.0, self@.1, self@.2, self@.3, self@.4, self@.5, self@.6),
    {
        proof {
            use_type_invariant(self);
            use_type_invariant(&self.date);
        }
        datetime_text(
            self.date.year,
            self.date.month,
            self.date.day,
            self.hour,
            self.minute,
            self.second,
            self.nanosecond,
            "%Y-%m-%d %H:%M:%S",
        )
    }

    /// Parses `s` with the `chrono` format `fmt`.
    pub fn parse_from_str(s: &str, fmt: &str) -> (r: Option<DateTime>)
        ensures
            r matches Some(t) ==> chrono_parse_datetime(s@, fmt@) == Some(t@),
            r is None ==> chrono_parse_datetime(s@, fmt@) is None,
    {
        match parse_datetime(s, fmt) {
            Some((year, month, day, hour, minute, second, nanosecond)) => Some(
                DateTime { date: Date { year, month, day }, hour, minute, second, nanosecond },
            ),
            None => None,
        }
    }

    /// The current UTC date-time.
    pub fn now_utc() -> (r: DateTime) {
        let (year, month, day, hour, minute, second, nanosecond) = utc_now();
        DateTime { date: Date { year, month, day }, hour, minute, second, nanosecond }
    }
}

/// Prints a date with `chrono`'s `Display` for `NaiveDate` (the same text as
/// `%Y-%m-%d`), stated exactly by `date_text_of`.
#[verifier::external_body]
fn date_text(year: i32, month: u32, day: u32) -> (r: String)
    requires
        valid_ymd(year as int, month as int, day as int),
    ensures
        r@ == date_text_of(year as int, month as int, day as int),
{
    chrono::NaiveDate::from_ymd_opt(year, month, day).unwrap().to_string()
}

/// Prints a date-time with `chrono`'s `format`, for the one format
/// `%Y-%m-%d %H:%M:%S`; the output is stated exactly by `datetime_text_of`.
#[verifier::external_body]
fn datetime_text(year: i32, month: u32, day: u32, hour: u32, minute: u32, second: u32, nano: u32, fmt: &str) -> (r: String)
    requires
        valid_ymd(year as int, month as int, day as int),
        valid_hmsn(hour as int, minute as int, second as int, nano as int),
        fmt@ == "%Y-%m-%d %H:%M:%S"@,
    ensures
        r@ == datetime_text_of(year as int, month as int, day as int, hour as int, minute as int, second as int, nano as int),
{
    chrono::NaiveDate::from_ymd_opt(year, month, day)
        .unwrap()
        .and_hms_nano_opt(hour, minute, second, nano)
        .unwrap()
        .format(fmt)
        .to_string()
}

/// `chrono::NaiveDate::parse_from_str`, giving (year, month, day). A parsed
/// date is a valid `NaiveDate`; what is accepted is named, not stated.
#[verifier::external_body]
fn parse_date(s: &str, fmt: &str) -> (r: Option<(i32, u32, u32)>)
    ensures
        r matches Some(t) ==> valid_ymd(t.0 as int, t.1 as int, t.2 as int),
        chrono_parse_date(s@, fmt@) == (match r {
            Some(t) => Some((t.0 as int, t.1 as int, t.2 as int)),
            None => None::<(int, int, int)>,
        }),
{
    chrono::NaiveDate::parse_from_str(s, fmt).ok().map(|d| (d.year(), d.month(), d.day()))
}

/// `chrono::NaiveDateTime::parse_from_str`, giving (year, month, day, hour,
/// minute, second, nanosecond). A parsed value is a valid `NaiveDateTime`;
/// what is accepted is named, not stated.
#[verifier::external_body]
fn parse_datetime(s: &str, fmt: &str) -> (r: Option<(i32, u32, u32, u32, u32, u32, u32)>)
    ensures
        r matches Some(t) ==> valid_ymd(t.0 as int, t.1 as int, t.2 as int),
        r matches Some(t) ==> valid_hmsn(t.3 as int, t.4 as int, t.5 as int, t.6 as int),
        chrono_parse_datetime(s@, fmt@) == (match r {
            Some(t) => Some((t.0 as int, t.1 as int, t.2 as int, t.3 as int, t.4 as int, t.5 as int, t.6 as int)),
            None => None::<(int, int, int, int, int, int, int)>,
        }),
{
    chrono::NaiveDateTime::parse_from_str(s, fmt).ok().map(|t| {
        (t.year(), t.month(), t.day(), t.hour(), t.minute(), t.second(), t.nanosecond())
    })
}

/// `chrono::Utc::now().naive_utc()`, as (year, month, day, hour, minute,
/// second, nanosecond). Only validity is stated: the value is the clock's.
#[verifier::external_body]
fn utc_now() -> (r: (i32, u32, u32, u32, u32, u32, u32))
    ensures
        valid_ymd(r.0 as int, r.1 as int, r.2 as int),
        valid_hmsn(r.3 as int, r.4 as int, r.5 as int, r.6 as int),
{
    let t = chrono::Utc::now().naive_utc();
    (t.year(), t.month(), t.day(), t.hour(), t.minute(), t.second(), t.nanosecond())
}

} // verus!
