//! The number of days from a given day to the next anniversary of a month
//! and day.
//!
//! An anniversary falls on the same month and day in every year. The one day
//! that not every year has, 29 February, is kept on 1 March in the years
//! without it: the next day that the calendar has.

use crate::calendar::{
    day_number, is_calendar_date, is_leap_year, lemma_day_after, lemma_month_starts,
    lemma_year_step, lemma_years_in_order, Date, MAX_YEAR, MIN_YEAR,
};
use vstd::prelude::*;

verus! {

/// Whether some year has a day `day` in its month `month`. Every such day is
/// found in a leap year, and year 4 is one.
pub open spec fn is_month_day(month: int, day: int) -> bool {
    is_calendar_date(4, month, day)
}

/// The day of `year` on which the anniversary of `month` and `day` is kept:
/// that month and day where `year` has them, and 1 March otherwise.
pub open spec fn anniversary(year: i32, month: u32, day: u32) -> Date {
    if is_calendar_date(year as int, month as int, day as int) {
        Date { year, month, day }
    } else {
        Date { year, month: 3, day: 1 }
    }
}

/// The first anniversary of `month` and `day` that is not before `today`:
/// the one of `today`'s year unless that day has passed, and then the one of
/// the year after.
pub open spec fn next_anniversary(month: u32, day: u32, today: Date) -> Date {
    let this_year = anniversary(today.year, month, day);
    if this_year.day_number() < today.day_number() {
        anniversary((today.year + 1) as i32, month, day)
    } else {
        this_year
    }
}

/// The number of days from `today` to the next anniversary of `month` and
/// `day`.
pub open spec fn days_to_next_anniversary(month: u32, day: u32, today: Date) -> int {
    next_anniversary(month, day, today).day_number() - today.day_number()
}

/// Whether a 29 February lies after the day with the number `from` and before
/// the day with the number `to`.
pub open spec fn leap_day_between(from: int, to: int) -> bool {
    exists|year: int| is_leap_year(year) && from < #[trigger] day_number(year, 2, 29) < to
}

/// The day of `year` on which the anniversary of `month` and `day` is kept.
pub fn anniversary_in(year: i32, month: u32, day: u32) -> (date: Date)
    requires
        MIN_YEAR <= year <= MAX_YEAR,
        is_month_day(month as int, day as int),
    ensures
        date == anniversary(year, month, day),
        date.wf(),
{
    match Date::from_ymd_opt(year, month, day) {
        Some(date) => date,
        None => Date { year, month: 3, day: 1 },
    }
}

/// The number of days from `today` to the next anniversary of `birth_month`
/// and `birth_day`: 0 on the anniversary itself, and never more than 365.
///
/// The next anniversary must be a day that a date can hold: it must not lie
/// in the year after [`MAX_YEAR`].
pub fn days_until_next_anniversary(birth_month: u32, birth_day: u32, today: Date) -> (days: u32)
    requires
        is_month_day(birth_month as int, birth_day as int),
        today.wf(),
        next_anniversary(birth_month, birth_day, today).year <= MAX_YEAR,
    ensures
        days == days_to_next_anniversary(birth_month, birth_day, today),
        days <= 365,
{
    let this_year = anniversary_in(today.year, birth_month, birth_day);
    let next = if this_year.is_before(today) {
        anniversary_in(today.year + 1, birth_month, birth_day)
    } else {
        this_year
    };
    let days = next.days_since(today);
    proof {
        lemma_days_in_range(birth_month, birth_day, today);
    }
    days as u32
}

/// The number of days from `today` to the next anniversary of `birth_month`
/// and `birth_day`, or `None` where that anniversary lies in the year after
/// [`MAX_YEAR`], which no date can hold.
pub fn checked_days_until_next_anniversary(
    birth_month: u32,
    birth_day: u32,
    today: Date,
) -> (days: Option<u32>)
    requires
        is_month_day(birth_month as int, birth_day as int),
        today.wf(),
    ensures
        days is Some <==> next_anniversary(birth_month, birth_day, today).year <= MAX_YEAR,
        days matches Some(n) ==> n == days_to_next_anniversary(birth_month, birth_day, today)
            && n <= 365,
{
    let this_year = anniversary_in(today.year, birth_month, birth_day);
    if today.year < MAX_YEAR || !this_year.is_before(today) {
        Some(days_until_next_anniversary(birth_month, birth_day, today))
    } else {
        None
    }
}

/// The next anniversary is never before `today` and at most 365 days after.
pub proof fn lemma_days_in_range(month: u32, day: u32, today: Date)
    requires
        is_month_day(month as int, day as int),
        today.wf(),
    ensures
        0 <= days_to_next_anniversary(month, day, today) <= 365,
{
    let year = today.year as int;
    lemma_month_starts(year);
    lemma_month_starts(year + 1);
    lemma_year_step(year);
}

/// On the anniversary itself no day remains: where `today` has the month and
/// day of the anniversary, the count is 0.
pub proof fn law_zero_on_the_day(month: u32, day: u32, today: Date)
    requires
        today.wf(),
        today.month == month,
        today.day == day,
    ensures
        days_to_next_anniversary(month, day, today) == 0,
{
}

/// On the day after the anniversary a whole year less one day remains: where
/// `today` is the day after `birthday`, the count to the anniversary of
/// `birthday`'s month and day is 364 or 365, as the year between the two
/// anniversaries has 365 or 366 days.
pub proof fn law_year_less_a_day(birthday: Date, today: Date)
    requires
        birthday.wf(),
        today.wf(),
        today.day_number() == birthday.day_number() + 1,
    ensures
        days_to_next_anniversary(birthday.month, birthday.day, today) == 364
            || days_to_next_anniversary(birthday.month, birthday.day, today) == 365,
        days_to_next_anniversary(birthday.month, birthday.day, today) + 1
            == next_anniversary(birthday.month, birthday.day, today).day_number()
            - birthday.day_number(),
{
    let year = birthday.year as int;
    lemma_month_starts(year);
    lemma_month_starts(year + 1);
    lemma_year_step(year);
    lemma_day_after(birthday, today);
}

/// On the day after the anniversary the count is the longer one, 365, exactly
/// when a 29 February lies between that anniversary and the next. The one
/// exception is the anniversary of 29 February itself: its next one is kept
/// on 1 March of the year after, and the count is 365.
pub proof fn law_leap_day_makes_the_longer_year(birthday: Date, today: Date)
    requires
        birthday.wf(),
        today.wf(),
        today.day_number() == birthday.day_number() + 1,
    ensures
        ({
            let days = days_to_next_anniversary(birthday.month, birthday.day, today);
            let next = next_anniversary(birthday.month, birthday.day, today);
            if birthday.month == 2 && birthday.day == 29 {
                days == 365
            } else {
                days == 365 <==> leap_day_between(birthday.day_number(), next.day_number())
            }
        }),
{
    let year = birthday.year as int;
    let from = birthday.day_number();
    let to = next_anniversary(birthday.month, birthday.day, today).day_number();
    lemma_month_starts(year);
    lemma_month_starts(year + 1);
    lemma_year_step(year);
    lemma_day_after(birthday, today);
    if !(birthday.month == 2 && birthday.day == 29) {
        assert(to == day_number(year + 1, birthday.month as int, birthday.day as int));
        if to - from == 366 {
            if birthday.month <= 2 {
                assert(is_leap_year(year) && from < day_number(year, 2, 29) < to);
            } else {
                assert(is_leap_year(year + 1) && from < day_number(year + 1, 2, 29) < to);
            }
        }
        if leap_day_between(from, to) {
            let leap = choose|leap: int|
                is_leap_year(leap) && from < #[trigger] day_number(leap, 2, 29) < to;
            lemma_month_starts(leap);
            if leap < year {
                lemma_years_in_order(leap, year);
            }
            if leap > year + 1 {
                lemma_year_step(year + 1);
                lemma_years_in_order(year + 1, leap);
            }
            assert(leap == year || leap == year + 1);
        }
    }
}

} // verus!
