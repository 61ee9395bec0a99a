//! Calendar dates of the proleptic Gregorian calendar, and the calls into
//! `chrono` that the birthday and citation commands make on them.

use vstd::prelude::*;
use crate::text::{dec, digit_char};
use chrono::Datelike;

verus! {

/// The smallest year a date can have (that of `chrono::NaiveDate`).
pub const MIN_YEAR: i32 = -262143;

/// The largest year a date can have (that of `chrono::NaiveDate`).
pub const MAX_YEAR: i32 = 262142;

/// A calendar date: year, month (1 to 12) and day of the month.
#[derive(Clone, Copy, Debug, PartialEq, Eq, Structural)]
pub struct Date {
    pub year: i32,
    pub month: u32,
    pub day: u32,
}

/// Whether `y` is a leap year of the proleptic Gregorian calendar.
pub open spec fn is_leap(y: int) -> bool {
    (y % 4 == 0 && y % 100 != 0) || y % 400 == 0
}

/// Number of days of month `m` of year `y`.
pub open spec fn days_in_month(y: int, m: int) -> int {
    if m == 2 {
        if is_leap(y) {
            29
        } else {
            28
        }
    } else if m == 4 || m == 6 || m == 9 || m == 11 {
        30
    } else {
        31
    }
}

/// Whether year, month and day name an existing date in chrono's range.
pub open spec fn valid_ymd(y: int, m: int, d: int) -> bool {
    &&& MIN_YEAR <= y <= MAX_YEAR
    &&& 1 <= m <= 12
    &&& 1 <= d <= days_in_month(y, m)
}

/// Number of days in the months of year `y` before month `m`.
pub open spec fn days_before_month(y: int, m: int) -> int
    decreases m,
{
    if m <= 1 {
        0
    } else {
        days_before_month(y, m - 1) + days_in_month(y, m - 1)
    }
}

/// The number of the day, counting January 1 of year 1 as day 1.
pub open spec fn day_number(d: Date) -> int {
    let y = d.year - 1;
    365 * y + y / 4 - y / 100 + y / 400 + days_before_month(d.year as int, d.month as int)
        + d.day
}

/// Whether the month and day of `a` come before those of `b`.
pub open spec fn month_day_before(a: Date, b: Date) -> bool {
    a.month < b.month || (a.month == b.month && a.day < b.day)
}

/// Whole years from `base` to `d`, if `base` is not after `d`.
pub open spec fn years_between(d: Date, base: Date) -> Option<u32> {
    let years = d.year - base.year - (if month_day_before(d, base) {
        1int
    } else {
        0
    });
    if years >= 0 {
        Some(years as u32)
    } else {
        None
    }
}

/// `d` moved to year `year`, if that date exists.
pub open spec fn in_year(d: Date, year: i32) -> Option<Date> {
    if valid_ymd(year as int, d.month as int, d.day as int) {
        Some(Date { year, month: d.month, day: d.day })
    } else {
        None
    }
}

/// The English name of month `m`.
pub open spec fn month_name(m: int) -> Seq<char> {
    if m == 1 {
        "January"@
    } else if m == 2 {
        "February"@
    } else if m == 3 {
        "March"@
    } else if m == 4 {
        "April"@
    } else if m == 5 {
        "May"@
    } else if m == 6 {
        "June"@
    } else if m == 7 {
        "July"@
    } else if m == 8 {
        "August"@
    } else if m == 9 {
        "September"@
    } else if m == 10 {
        "October"@
    } else if m == 11 {
        "November"@
    } else {
        "December"@
    }
}

/// `s` with zeros in front up to width `w`.
pub open spec fn zero_pad(s: Seq<char>, w: nat) -> Seq<char> {
    if s.len() >= w {
        s
    } else {
        Seq::new((w - s.len()) as nat, |i: int| '0') + s
    }
}

/// A year as chrono's `%Y` writes it: four digits or more, with a sign
/// outside 0..=9999.
pub open spec fn year_text(y: int) -> Seq<char> {
    if 0 <= y <= 9999 {
        zero_pad(dec(y as nat), 4)
    } else if y < 0 {
        seq!['-'] + zero_pad(dec((-y) as nat), 4)
    } else {
        seq!['+'] + zero_pad(dec(y as nat), 4)
    }
}

/// A date as chrono's `%d %B %Y` writes it, such as `07 March 2025`.
pub open spec fn long_date_text(d: Date) -> Seq<char> {
    seq![digit_char((d.day / 10) as nat), digit_char((d.day % 10) as nat)] + " "@ + month_name(
        d.month as int,
    ) + " "@ + year_text(d.year as int)
}

/// The number of the day before January 1 of year `y`.
pub open spec fn year_start(y: int) -> int {
    let p = y - 1;
    365 * p + p / 4 - p / 100 + p / 400
}

/// The number of days of year `y`.
pub open spec fn year_days(y: int) -> int {
    if is_leap(y) {
        366
    } else {
        365
    }
}

/// Whether date `a` comes before date `b`: an earlier year; in the same
/// year, an earlier month; in the same month, an earlier day.
pub open spec fn earlier(a: Date, b: Date) -> bool {
    a.year < b.year || (a.year == b.year && (a.month < b.month || (a.month == b.month && a.day
        < b.day)))
}

/// The months before month `m` and month `m` itself take no more days than
/// the months before a later month `m2`.
proof fn lemma_months_grow(y: int, m: int, m2: int)
    requires
        1 <= m < m2 <= 13,
    ensures
        days_before_month(y, m) + days_in_month(y, m) <= days_before_month(y, m2),
    decreases m2 - m,
{
    if m2 > m + 1 {
        lemma_months_grow(y, m, m2 - 1);
    }
}

/// The twelve months of year `y` have its number of days.
proof fn lemma_year_of_months(y: int)
    ensures
        days_before_month(y, 13) == year_days(y),
{
    reveal_with_fuel(days_before_month, 13);
}

/// How far the multiples of `k` up to `y` outnumber those up to `y - 1`.
proof fn lemma_div_step(y: int, k: int)
    requires
        k > 0,
    ensures
        y / k - (y - 1) / k == if y % k == 0 {
            1int
        } else {
            0
        },
{
    let q = y / k;
    let r = y % k;
    assert(y == k * q + r && 0 <= r < k) by (nonlinear_arith)
        requires
            k > 0,
            q == y / k,
            r == y % k,
    ;
    if r == 0 {
        assert((y - 1) / k == q - 1) by (nonlinear_arith)
            requires
                k > 0,
                y == k * q,
        ;
    } else {
        assert((y - 1) / k == q) by (nonlinear_arith)
            requires
                k > 0,
                y == k * q + r,
                1 <= r < k,
        ;
    }
}

/// One year after another: the next starts when this one's days are done.
proof fn lemma_next_year_start(y: int)
    ensures
        year_start(y + 1) == year_start(y) + year_days(y),
{
    let p = y - 1;
    lemma_div_step(y, 4);
    lemma_div_step(y, 100);
    lemma_div_step(y, 400);
    let d4 = y / 4 - p / 4;
    let d100 = y / 100 - p / 100;
    let d400 = y / 400 - p / 400;
    assert(y % 400 == 0 ==> y % 100 == 0) by (nonlinear_arith);
    assert(y % 100 == 0 ==> y % 4 == 0) by (nonlinear_arith);
    assert(d4 - d100 + d400 == if is_leap(y) {
        1int
    } else {
        0
    });
    assert(year_start(y + 1) == 365 * y + y / 4 - y / 100 + y / 400);
    assert(year_start(y) == 365 * p + p / 4 - p / 100 + p / 400);
}

/// A later year starts after all days of an earlier one.
proof fn lemma_later_year_start(y: int, y2: int)
    requires
        y < y2,
    ensures
        year_start(y) + year_days(y) <= year_start(y2),
    decreases y2 - y,
{
    lemma_next_year_start(y);
    if y2 > y + 1 {
        lemma_later_year_start(y + 1, y2);
    }
}

/// The day of a date within its year lies between 1 and the year's days.
proof fn lemma_day_of_year(d: Date)
    requires
        d.wf(),
    ensures
        1 <= days_before_month(d.year as int, d.month as int) + d.day <= year_days(d.year as int),
{
    lemma_year_of_months(d.year as int);
    lemma_months_grow(d.year as int, d.month as int, 13);
    if d.month > 1 {
        lemma_months_grow(d.year as int, 1, d.month as int);
    }
}

/// Counting days orders dates as the calendar does: of two dates, the
/// earlier has the smaller day number.
pub proof fn lemma_day_number_order(a: Date, b: Date)
    requires
        a.wf(),
        b.wf(),
    ensures
        earlier(a, b) <==> day_number(a) < day_number(b),
        a == b <==> day_number(a) == day_number(b),
{
    lemma_day_of_year(a);
    lemma_day_of_year(b);
    assert(day_number(a) == year_start(a.year as int) + days_before_month(
        a.year as int,
        a.month as int,
    ) + a.day);
    assert(day_number(b) == year_start(b.year as int) + days_before_month(
        b.year as int,
        b.month as int,
    ) + b.day);
    if a.year < b.year {
        lemma_later_year_start(a.year as int, b.year as int);
    } else if b.year < a.year {
        lemma_later_year_start(b.year as int, a.year as int);
    } else if a.month < b.month {
        lemma_months_grow(a.year as int, a.month as int, b.month as int);
    } else if b.month < a.month {
        lemma_months_grow(a.year as int, b.month as int, a.month as int);
    }
}

/// What `chrono::NaiveDate::parse_from_str(input, fmt)` gives: the date,
/// or the text of its error.
pub uninterp spec fn date_parse_result(input: Seq<char>, fmt: Seq<char>) -> Result<Date, Seq<char>>;

/// Whether `fmt` is a format that chrono's `StrftimeItems` accepts.
pub uninterp spec fn strftime_valid(fmt: Seq<char>) -> bool;

impl Date {
    /// The date exists and lies in chrono's range of years.
    pub open spec fn wf(self) -> bool {
        valid_ymd(self.year as int, self.month as int, self.day as int)
    }

    /// `chrono::NaiveDate::default()`: January 1, 1970.
    pub fn epoch() -> (d: Date)
        ensures
            d == (Date { year: 1970, month: 1, day: 1 }),
            d.wf(),
    {
        Date { year: 1970, month: 1, day: 1 }
    }
}

/// `chrono::NaiveDate::with_year`: the same month and day in `year`, if
/// that date exists and the year is in chrono's range.
#[verifier::external_body]
pub(crate) fn with_year(d: Date, year: i32) -> (r: Option<Date>)
    requires
        d.wf(),
    ensures
        r == in_year(d, year),
{
    chrono::NaiveDate::from_ymd_opt(d.year, d.month, d.day).unwrap().with_year(year).map(
        |n| Date { year: n.year(), month: n.month(), day: n.day() },
    )
}

/// `chrono::NaiveDate::years_since`: the whole years from `base` to `d`,
/// `None` if `base` is after `d`.
#[verifier::external_body]
pub(crate) fn years_since(d: Date, base: Date) -> (r: Option<u32>)
    requires
        d.wf(),
        base.wf(),
    ensures
        r == years_between(d, base),
{
    chrono::NaiveDate::from_ymd_opt(d.year, d.month, d.day).unwrap().years_since(
        chrono::NaiveDate::from_ymd_opt(base.year, base.month, base.day).unwrap(),
    )
}

/// `chrono::NaiveDate::signed_duration_since(..).num_days()`: the number
/// of days from `b` to `a`.
#[verifier::external_body]
pub(crate) fn days_since(a: Date, b: Date) -> (r: i64)
    requires
        a.wf(),
        b.wf(),
    ensures
        r == day_number(a) - day_number(b),
{
    chrono::NaiveDate::from_ymd_opt(a.year, a.month, a.day).unwrap().signed_duration_since(
        chrono::NaiveDate::from_ymd_opt(b.year, b.month, b.day).unwrap(),
    ).num_days()
}

/// `chrono::NaiveDate::format("%d %B %Y")` written out.
#[verifier::external_body]
pub(crate) fn long_date(d: Date) -> (s: String)
    requires
        d.wf(),
    ensures
        s@ == long_date_text(d),
{
    chrono::NaiveDate::from_ymd_opt(d.year, d.month, d.day).unwrap().format("%d %B %Y").to_string()
}

/// `chrono::NaiveDate::parse_from_str`: the date that `input` writes in
/// format `fmt`, or the text of chrono's error. How chrono reads a format
/// takes pages, so the result is named (`date_parse_result`); what is
/// stated beyond the name is only that a parsed date exists.
#[verifier::external_body]
pub(crate) fn parse_date(input: &str, fmt: &str) -> (r: Result<Date, String>)
    ensures
        match r {
            Ok(d) => date_parse_result(input@, fmt@) == Ok::<Date, Seq<char>>(d) && d.wf(),
            Err(e) => date_parse_result(input@, fmt@) == Err::<Date, Seq<char>>(e@),
        },
{
    match chrono::NaiveDate::parse_from_str(input, fmt) {
        Ok(n) => Ok(Date { year: n.year(), month: n.month(), day: n.day() }),
        Err(e) => Err(e.to_string()),
    }
}

/// Today's date in the machine's time zone (`chrono::Local::now()`).
/// Nothing is stated of which date it is: it depends on the clock and the
/// time zone.
#[verifier::external_body]
pub(crate) fn today() -> (d: Date)
    ensures
        d.wf(),
{
    let n = chrono::Local::now().date_naive();
    Date { year: n.year(), month: n.month(), day: n.day() }
}

/// Whether chrono accepts `fmt` as a format
/// (`chrono::format::StrftimeItems::new(fmt).parse()` succeeds). Formatting
/// a date and time with an accepted format does not fail.
#[verifier::external_body]
pub(crate) fn strftime_check(fmt: &str) -> (ok: bool)
    ensures
        ok == strftime_valid(fmt@),
{
    chrono::format::StrftimeItems::new(fmt).parse().is_ok()
}

/// A moment in UTC: seconds and nanoseconds since the Unix epoch.
#[derive(Clone, Copy, Debug, PartialEq, Eq, Structural)]
pub struct Timestamp {
    pub secs: i64,
    pub nanos: u32,
}

/// What chrono writes for the moment `secs` seconds and `nanos`
/// nanoseconds after the Unix epoch, seen at `offset` seconds east of UTC,
/// in format `fmt`. How chrono formats takes pages, so the text is named.
pub uninterp spec fn timestamp_text(secs: i64, nanos: u32, offset: i32, fmt: Seq<char>) -> Seq<char>;

/// The offset from UTC, in seconds east, of the machine's time zone at
/// the moment `ts` (`chrono::Local`'s `offset_from_utc_datetime`, then
/// `FixedOffset::local_minus_utc`). Only its range, that of a
/// `FixedOffset`, is stated: its value depends on the machine's time zone.
/// A moment outside chrono's range, which no `DateTime` gives, has offset 0.
#[verifier::external_body]
pub(crate) fn local_offset(ts: Timestamp) -> (o: i32)
    ensures
        -86_400 < o < 86_400,
{
    chrono::DateTime::from_timestamp(ts.secs, ts.nanos).map(
        |t| chrono::TimeZone::offset_from_utc_datetime(&chrono::Local, &t.naive_utc()).local_minus_utc(),
    ).unwrap_or_default()
}

/// The moment `ts` seen at `offset` seconds east of UTC, written in format
/// `fmt` (`chrono::DateTime::with_timezone` to that `FixedOffset`, then
/// `format(fmt)`): `timestamp_text` of its arguments. A moment outside
/// chrono's range, which no `DateTime` gives, is written as the empty text.
#[verifier::external_body]
pub(crate) fn offset_timestamp_text(ts: Timestamp, offset: i32, fmt: &str) -> (s: String)
    requires
        strftime_valid(fmt@),
        -86_400 < offset < 86_400,
    ensures
        s@ == timestamp_text(ts.secs, ts.nanos, offset, fmt@),
{
    chrono::DateTime::from_timestamp(ts.secs, ts.nanos).map(
        |t| t.with_timezone(&chrono::FixedOffset::east_opt(offset).unwrap()).format(fmt).to_string(),
    ).unwrap_or_default()
}

} // verus!
