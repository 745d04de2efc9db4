//! Calendar dates: parsed and formatted by `chrono`, ordered by their
//! year, month and day.

use chrono::{Datelike, NaiveDate};
use std::fmt::Write;
use crate::text::repeat;
use vstd::prelude::*;

verus! {

/// A calendar date, as `chrono::NaiveDate` reports it.
#[derive(Debug, Clone, Copy, PartialEq, Eq, Structural)]
pub struct Date {
    pub year: i32,
    pub month: u32,
    pub day: u32,
}

/// The year, month and day of `d`, the key by which dates are ordered.
pub open spec fn date_key(d: Date) -> (int, int, int) {
    (d.year as int, d.month as int, d.day as int)
}

/// Whether `a` comes strictly before `b` in the calendar.
pub open spec fn date_lt(a: Date, b: Date) -> bool {
    ||| a.year < b.year
    ||| a.year == b.year && a.month < b.month
    ||| a.year == b.year && a.month == b.month && a.day < b.day
}

/// Whether `a` comes strictly before `b` in the calendar.
pub fn date_before(a: &Date, b: &Date) -> (r: bool)
    ensures
        r == date_lt(*a, *b),
{
    a.year < b.year || (a.year == b.year && a.month < b.month) || (a.year == b.year && a.month
        == b.month && a.day < b.day)
}

/// What `chrono::NaiveDate::from_str` makes of `s`: the year, month and day
/// of the date, or the text of the parse error.
pub uninterp spec fn parsed_date(s: Seq<char>) -> Result<(int, int, int), Seq<char>>;

/// What `chrono::NaiveDate::format(fmt)` writes for the date with this
/// year, month and day; empty where there is no such date or `fmt` is not a
/// valid format.
pub uninterp spec fn formatted_date(year: int, month: int, day: int, fmt: Seq<char>) -> Seq<char>;

/// Whether `year` is a leap year of the Gregorian calendar.
pub open spec fn is_leap_year(year: int) -> bool {
    year % 4 == 0 && (year % 100 != 0 || year % 400 == 0)
}

/// The number of days of `month` in `year`.
pub open spec fn days_in_month(year: int, month: int) -> int {
    if month == 2 {
        if is_leap_year(year) {
            29
        } else {
            28
        }
    } else if month == 4 || month == 6 || month == 9 || month == 11 {
        30
    } else {
        31
    }
}

/// Whether the year, month and day name a day of the calendar.
pub open spec fn is_calendar_date(year: int, month: int, day: int) -> bool {
    1 <= month <= 12 && 1 <= day <= days_in_month(year, month)
}

/// The decimal digit `d`.
pub open spec fn digit_char(d: int) -> char {
    if d == 0 {
        '0'
    } else if d == 1 {
        '1'
    } else if d == 2 {
        '2'
    } else if d == 3 {
        '3'
    } else if d == 4 {
        '4'
    } else if d == 5 {
        '5'
    } else if d == 6 {
        '6'
    } else if d == 7 {
        '7'
    } else if d == 8 {
        '8'
    } else {
        '9'
    }
}

/// The decimal digits of `n`, without leading zeros (`0` for zero).
pub open spec fn decimal(n: nat) -> Seq<char>
    decreases n,
{
    if n < 10 {
        seq![digit_char(n as int)]
    } else {
        decimal(n / 10) + seq![digit_char((n % 10) as int)]
    }
}

/// The decimal digits of `n`, with zeros in front up to `width` digits.
pub open spec fn padded(n: nat, width: nat) -> Seq<char> {
    let digits = decimal(n);
    if digits.len() < width {
        repeat("0"@, (width - digits.len()) as nat) + digits
    } else {
        digits
    }
}

/// The date written as `%Y-%m-%d` writes it, for a year of at most four
/// digits that is not negative: year, month and day padded with zeros.
pub open spec fn iso_text(year: nat, month: nat, day: nat) -> Seq<char> {
    padded(year, 4) + "-"@ + padded(month, 2) + "-"@ + padded(day, 2)
}

/// The date written as `%Y年%-m月%-d日` writes it, for a year of at most
/// four digits that is not negative: the year padded with zeros, the month
/// and day without, each followed by its unit.
pub open spec fn reader_text(year: nat, month: nat, day: nat) -> Seq<char> {
    padded(year, 4) + "年"@ + decimal(month) + "月"@ + decimal(day) + "日"@
}

/// The plain value of what `parse_date` returns.
pub open spec fn date_result_view(r: Result<Date, String>) -> Result<(int, int, int), Seq<char>> {
    match r {
        Ok(d) => Ok(date_key(d)),
        Err(e) => Err(e@),
    }
}

/// Parses `s` with `chrono::NaiveDate::from_str` and reads the date's
/// `year`, `month` and `day`; an error becomes its `Display` text. Claimed:
/// the result is the named `parsed_date` of `s`, and, as chrono documents
/// for `month` and `day`, a month lies in 1..=12 and a day in 1..=31.
#[verifier::external_body]
pub(crate) fn parse_date(s: &str) -> (r: Result<Date, String>)
    ensures
        date_result_view(r) == parsed_date(s@),
        r matches Ok(d) ==> 1 <= d.month <= 12 && 1 <= d.day <= 31,
{
    s.parse::<NaiveDate>().map(|d| Date { year: d.year(), month: d.month(), day: d.day() }).map_err(
        |e| e.to_string(),
    )
}

/// Builds the date with `chrono::NaiveDate::from_ymd_opt` and writes it with
/// `NaiveDate::format(fmt)`; where there is no such date, or `fmt` is
/// refused while writing, the result is empty. Claimed: the result is the
/// named `formatted_date` of the date's fields and `fmt`; it is empty where
/// the fields name no day of the calendar (`from_ymd_opt` gives `None`);
/// and for a year in 0..=9999 the two patterns of this crate write, as
/// chrono's `format_numeric` shows, `%Y` as four digits padded with zeros,
/// `%m` and `%d` as two, `%-m` and `%-d` without padding, and the other
/// characters as they stand. What other patterns and other years give is
/// left to the name.
#[verifier::external_body]
pub(crate) fn format_date_with(date: &Date, fmt: &str) -> (r: String)
    ensures
        r@ == formatted_date(date.year as int, date.month as int, date.day as int, fmt@),
        !is_calendar_date(date.year as int, date.month as int, date.day as int) ==> r@.len() == 0,
        is_calendar_date(date.year as int, date.month as int, date.day as int) && 0 <= date.year
            <= 9999 && fmt@ == ISO_DATE_FORMAT@ ==> r@ == iso_text(
            date.year as nat,
            date.month as nat,
            date.day as nat,
        ),
        is_calendar_date(date.year as int, date.month as int, date.day as int) && 0 <= date.year
            <= 9999 && fmt@ == READER_DATE_FORMAT@ ==> r@ == reader_text(
            date.year as nat,
            date.month as nat,
            date.day as nat,
        ),
{
    let mut out = String::new();
    if let Some(d) = NaiveDate::from_ymd_opt(date.year, date.month, date.day) {
        if write!(out, "{}", d.format(fmt)).is_err() {
            out.clear();
        }
    }
    out
}

/// The pattern of a date in a post's header: year, month and day.
pub const ISO_DATE_FORMAT: &'static str = "%Y-%m-%d";

/// The pattern of a date shown to readers: `2026年5月5日`.
pub const READER_DATE_FORMAT: &'static str = "%Y年%-m月%-d日";

/// `date` as readers see it: the year, then the month and day without
/// leading zeros, each followed by its Chinese unit; empty where there is
/// no such day.
pub fn format_date(date: &Date) -> (r: String)
    ensures
        r@ == formatted_date(date.year as int, date.month as int, date.day as int, READER_DATE_FORMAT@),
        !is_calendar_date(date.year as int, date.month as int, date.day as int) ==> r@.len() == 0,
        is_calendar_date(date.year as int, date.month as int, date.day as int) && 0 <= date.year
            <= 9999 ==> r@ == reader_text(date.year as nat, date.month as nat, date.day as nat),
{
    format_date_with(date, READER_DATE_FORMAT)
}

/// `date` written as `YYYY-MM-DD`, which is also how `NaiveDate` displays;
/// empty where there is no such day.
pub fn iso_date(date: &Date) -> (r: String)
    ensures
        r@ == formatted_date(date.year as int, date.month as int, date.day as int, ISO_DATE_FORMAT@),
        !is_calendar_date(date.year as int, date.month as int, date.day as int) ==> r@.len() == 0,
        is_calendar_date(date.year as int, date.month as int, date.day as int) && 0 <= date.year
            <= 9999 ==> r@ == iso_text(date.year as nat, date.month as nat, date.day as nat),
{
    format_date_with(date, ISO_DATE_FORMAT)
}

} // verus!
