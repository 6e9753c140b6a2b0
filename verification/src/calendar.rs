//! Calendar dates of the proleptic Gregorian calendar and the day counts
//! between them.
//!
//! The mathematical model of a date is its day number: the count of days from
//! the day before 1 January of year 1 up to and including the date. Dates are
//! built and subtracted by `chrono`; what `chrono` is trusted to return is
//! stated over that model.

use chrono::Datelike;
use vstd::prelude::*;

verus! {

/// The earliest year that a [`Date`] can hold.
pub const MIN_YEAR: i32 = -262143;

/// The latest year that a [`Date`] can hold.
pub const MAX_YEAR: i32 = 262142;

/// Whether `year` has a 29 February.
pub open spec fn is_leap_year(year: int) -> bool {
    year % 4 == 0 && (year % 100 != 0 || year % 400 == 0)
}

/// The number of days of `year`.
pub open spec fn days_in_year(year: int) -> int {
    if is_leap_year(year) {
        366
    } else {
        365
    }
}

/// The number of days of `month` in `year`, for a month from 1 to 12.
pub open spec fn days_in_month(year: int, month: int) -> int {
    if month == 2 {
        if is_leap_year(year) {
            29
        } else {
            28
        }
    } else if month == 4 || month == 6 || month == 9 || month == 11 {
        30
    } else {
        31
    }
}

/// Whether `year`-`month`-`day` names a day of the calendar.
pub open spec fn is_calendar_date(year: int, month: int, day: int) -> bool {
    1 <= month <= 12 && 1 <= day <= days_in_month(year, month)
}

/// The number of days of `year` that lie before the first day of `month`.
pub open spec fn days_before_month(year: int, month: int) -> int
    decreases month,
{
    if month <= 1 {
        0
    } else {
        days_before_month(year, month - 1) + days_in_month(year, month - 1)
    }
}

/// The number of days from 1 January of year 1 up to, and without,
/// 1 January of `year`; negative for years before year 1.
pub open spec fn days_before_year(year: int) -> int {
    365 * (year - 1) + (year - 1) / 4 - (year - 1) / 100 + (year - 1) / 400
}

/// The day number of `year`-`month`-`day`: 1 for 1 January of year 1, and one
/// more for each day after it.
pub open spec fn day_number(year: int, month: int, day: int) -> int {
    days_before_year(year) + days_before_month(year, month) + day
}

/// The day after `date`: the next day of the month, or the first day of the
/// next month, or of the next year.
pub open spec fn day_after(date: Date) -> Date {
    if date.day < days_in_month(date.year as int, date.month as int) {
        Date { year: date.year, month: date.month, day: (date.day + 1) as u32 }
    } else if date.month < 12 {
        Date { year: date.year, month: (date.month + 1) as u32, day: 1 }
    } else {
        Date { year: (date.year + 1) as i32, month: 1, day: 1 }
    }
}

/// A day of the calendar, held as its year, month and day of the month.
#[derive(Clone, Copy, Debug, PartialEq, Eq, Structural)]
pub struct Date {
    pub year: i32,
    pub month: u32,
    pub day: u32,
}

impl Date {
    /// A date is well formed when it names a day of the calendar in a year
    /// from [`MIN_YEAR`] to [`MAX_YEAR`].
    pub open spec fn wf(self) -> bool {
        &&& MIN_YEAR <= self.year <= MAX_YEAR
        &&& is_calendar_date(self.year as int, self.month as int, self.day as int)
    }

    /// The day number of this date.
    pub open spec fn day_number(self) -> int {
        day_number(self.year as int, self.month as int, self.day as int)
    }

    /// Whether this date comes before `other` by year, then month, then day.
    pub open spec fn precedes(self, other: Date) -> bool {
        ||| self.year < other.year
        ||| self.year == other.year && self.month < other.month
        ||| self.year == other.year && self.month == other.month && self.day < other.day
    }

    /// The date of the given year, month and day, where they name a day of
    /// the calendar in a supported year.
    pub fn from_ymd_opt(year: i32, month: u32, day: u32) -> (date: Option<Date>)
        ensures
            date is Some <==> MIN_YEAR <= year <= MAX_YEAR
                && is_calendar_date(year as int, month as int, day as int),
            date matches Some(d) ==> d.wf() && d.year == year && d.month == month && d.day == day,
    {
        naive_from_ymd(year, month, day)
    }

    /// The date that `text` holds in the form year, month and day separated
    /// by `-`, or `None` where `text` holds no date.
    pub fn parse(text: &str) -> (date: Option<Date>)
        ensures
            date is Some <==> parsed_date(text@) is Some,
            date matches Some(d) ==> d.wf()
                && parsed_date(text@) == Some((d.year as int, d.month as int, d.day as int)),
    {
        match naive_from_str(text) {
            Ok(d) => Some(d),
            Err(_) => None,
        }
    }

    /// The date that the system clock shows in the local time zone. Which
    /// day that is only the clock tells; it is always a well-formed date.
    pub fn today() -> (date: Date)
        ensures
            date.wf(),
    {
        let (year, month, day) = local_today();
        Date { year, month, day }
    }

    /// Whether this date is an earlier day than `other`.
    pub fn is_before(self, other: Date) -> (before: bool)
        requires
            self.wf(),
            other.wf(),
        ensures
            before == (self.day_number() < other.day_number()),
            before == self.precedes(other),
    {
        proof {
            lemma_order(self, other);
        }
        self.year < other.year || (self.year == other.year && (self.month < other.month
            || (self.month == other.month && self.day < other.day)))
    }

    /// The number of days from `earlier` to this date; negative where this
    /// date is the earlier one.
    pub fn days_since(self, earlier: Date) -> (days: i64)
        requires
            self.wf(),
            earlier.wf(),
        ensures
            days == self.day_number() - earlier.day_number(),
    {
        naive_days_between(self, earlier)
    }
}

/// The error with which `chrono` rejects a text that is no date.
#[verifier::external_type_specification]
#[verifier::external_body]
pub struct ExParseError(chrono::ParseError);

/// What `chrono` reads from a text as a date: the year, month and day, or
/// `None` where it rejects the text.
pub uninterp spec fn parsed_date(text: Seq<char>) -> Option<(int, int, int)>;

/// Calls `chrono::NaiveDate::from_ymd_opt`, which makes a date exactly of the
/// year, month and day that name a day of the calendar in a year from
/// [`MIN_YEAR`] to [`MAX_YEAR`], and otherwise returns `None`. The date comes
/// back as the year, month and day that `chrono` reports of it.
#[verifier::external_body]
fn naive_from_ymd(year: i32, month: u32, day: u32) -> (date: Option<Date>)
    ensures
        (date is Some) == (MIN_YEAR <= year <= MAX_YEAR
            && is_calendar_date(year as int, month as int, day as int)),
        date matches Some(d) ==> d.year == year && d.month == month && d.day == day,
{
    match chrono::NaiveDate::from_ymd_opt(year, month, day) {
        Some(d) => Some(Date { year: d.year(), month: d.month(), day: d.day() }),
        None => None,
    }
}

/// Calls `chrono::NaiveDate::signed_duration_since` and reads the result with
/// `chrono::TimeDelta::num_days`: the number of days from `earlier` to
/// `later` in the proleptic Gregorian calendar, negative where `later` is the
/// earlier of the two.
#[verifier::external_body]
fn naive_days_between(later: Date, earlier: Date) -> (days: i64)
    requires
        later.wf(),
        earlier.wf(),
    ensures
        days == later.day_number() - earlier.day_number(),
{
    let a = chrono::NaiveDate::from_ymd_opt(later.year, later.month, later.day).unwrap();
    let b = chrono::NaiveDate::from_ymd_opt(earlier.year, earlier.month, earlier.day).unwrap();
    a.signed_duration_since(b).num_days()
}

/// Calls the `FromStr` impl of `chrono::NaiveDate`, which reads a year, a
/// month and a day separated by `-`. What it accepts is named by
/// [`parsed_date`]; a date that it returns is well formed.
#[verifier::external_body]
fn naive_from_str(text: &str) -> (parsed: Result<Date, chrono::ParseError>)
    ensures
        (parsed is Ok) == (parsed_date(text@) is Some),
        parsed matches Ok(d) ==> d.wf()
            && parsed_date(text@) == Some((d.year as int, d.month as int, d.day as int)),
{
    match text.parse::<chrono::NaiveDate>() {
        Ok(d) => Ok(Date { year: d.year(), month: d.month(), day: d.day() }),
        Err(e) => Err(e),
    }
}

/// Calls `chrono::Local::now` and `chrono::DateTime::date_naive`: the year,
/// month and day that the system clock shows in the local time zone. Which
/// day that is depends on the clock alone. It is a day of the calendar in a
/// year from [`MIN_YEAR`] to [`MAX_YEAR`], since `chrono` holds no other day
/// in a `NaiveDate` and panics rather than return one.
#[verifier::external_body]
fn local_today() -> (today: (i32, u32, u32))
    ensures
        MIN_YEAR <= today.0 <= MAX_YEAR,
        is_calendar_date(today.0 as int, today.1 as int, today.2 as int),
{
    let d = chrono::Local::now().date_naive();
    (d.year(), d.month(), d.day())
}

/// Each year is followed by the next after exactly its own number of days.
pub proof fn lemma_year_step(year: int)
    ensures
        days_before_year(year + 1) == days_before_year(year) + days_in_year(year),
{
    assert(year / 4 == (year - 1) / 4 + if year % 4 == 0 { 1int } else { 0int });
    assert(year / 100 == (year - 1) / 100 + if year % 100 == 0 { 1int } else { 0int });
    assert(year / 400 == (year - 1) / 400 + if year % 400 == 0 { 1int } else { 0int });
    assert(year % 100 == 0 ==> year % 4 == 0);
    assert(year % 400 == 0 ==> year % 100 == 0);
}

/// A later year begins after the whole of every earlier year.
pub proof fn lemma_years_in_order(earlier: int, later: int)
    requires
        earlier < later,
    ensures
        days_before_year(earlier) + days_in_year(earlier) <= days_before_year(later),
    decreases later - earlier,
{
    if earlier + 1 < later {
        lemma_years_in_order(earlier, later - 1);
    }
    lemma_year_step(later - 1);
}

/// The months of a year begin on these days, counted from the start of the
/// year, and together they fill the year.
pub proof fn lemma_month_starts(year: int)
    ensures
        days_before_month(year, 1) == 0,
        days_before_month(year, 2) == 31,
        days_before_month(year, 3) == 31 + days_in_month(year, 2),
        days_before_month(year, 4) == 62 + days_in_month(year, 2),
        days_before_month(year, 5) == 92 + days_in_month(year, 2),
        days_before_month(year, 6) == 123 + days_in_month(year, 2),
        days_before_month(year, 7) == 153 + days_in_month(year, 2),
        days_before_month(year, 8) == 184 + days_in_month(year, 2),
        days_before_month(year, 9) == 215 + days_in_month(year, 2),
        days_before_month(year, 10) == 245 + days_in_month(year, 2),
        days_before_month(year, 11) == 276 + days_in_month(year, 2),
        days_before_month(year, 12) == 306 + days_in_month(year, 2),
        days_before_month(year, 13) == days_in_year(year),
{
    reveal_with_fuel(days_before_month, 14);
}

/// Within one year the day numbers follow the order of month and day.
pub proof fn lemma_order_within_year(year: int, m1: int, d1: int, m2: int, d2: int)
    requires
        is_calendar_date(year, m1, d1),
        is_calendar_date(year, m2, d2),
    ensures
        (m1 < m2 || (m1 == m2 && d1 < d2))
            <==> day_number(year, m1, d1) < day_number(year, m2, d2),
        1 <= days_before_month(year, m1) + d1 <= days_in_year(year),
{
    lemma_month_starts(year);
}

/// Day numbers follow the order of year, month and day, and two well-formed
/// dates with one day number are the same date.
pub proof fn lemma_order(a: Date, b: Date)
    requires
        a.wf(),
        b.wf(),
    ensures
        a.precedes(b) <==> a.day_number() < b.day_number(),
        a == b <==> a.day_number() == b.day_number(),
{
    let (ay, am, ad) = (a.year as int, a.month as int, a.day as int);
    let (by, bm, bd) = (b.year as int, b.month as int, b.day as int);
    lemma_order_within_year(ay, am, ad, am, ad);
    lemma_order_within_year(by, bm, bd, bm, bd);
    if ay < by {
        lemma_years_in_order(ay, by);
    } else if by < ay {
        lemma_years_in_order(by, ay);
    } else {
        lemma_order_within_year(ay, am, ad, bm, bd);
        lemma_order_within_year(ay, bm, bd, am, ad);
    }
}

/// The well-formed date whose day number is one more than that of `date` is
/// the day after `date`.
pub proof fn lemma_day_after(date: Date, next: Date)
    requires
        date.wf(),
        next.wf(),
        next.day_number() == date.day_number() + 1,
    ensures
        next == day_after(date),
{
    let year = date.year as int;
    lemma_month_starts(year);
    lemma_month_starts(year + 1);
    lemma_year_step(year);
    lemma_order(date, next);
    let after = day_after(date);
    assert(after.day_number() == date.day_number() + 1);
    if after.wf() {
        lemma_order(after, next);
    }
}

} // verus!
