use birthday_service::calendar::{Date, MAX_YEAR, MIN_YEAR};
use birthday_service::countdown::{
    anniversary_in, checked_days_until_next_anniversary, days_until_next_anniversary,
};

fn on(year: i32, month: u32, day: u32) -> Date {
    Date::from_ymd_opt(year, month, day).unwrap()
}

fn month_length(year: i32, month: u32) -> u32 {
    (28..=31).rev().find(|&day| Date::from_ymd_opt(year, month, day).is_some()).unwrap()
}

#[test]
fn anniversary_later_this_month_is_days_away() {
    assert_eq!(days_until_next_anniversary(3, 15, on(2024, 3, 10)), 5);
}

#[test]
fn anniversary_that_has_passed_wraps_to_next_year() {
    assert_eq!(days_until_next_anniversary(3, 15, on(2024, 3, 20)), 360);
}

#[test]
fn anniversary_today_is_zero_days_away() {
    assert_eq!(days_until_next_anniversary(3, 15, on(2024, 3, 15)), 0);
    assert_eq!(days_until_next_anniversary(7, 4, on(2024, 7, 4)), 0);
    assert_eq!(days_until_next_anniversary(2, 29, on(2024, 2, 29)), 0);
    assert_eq!(days_until_next_anniversary(12, 31, on(2023, 12, 31)), 0);
    assert_eq!(days_until_next_anniversary(1, 1, on(2025, 1, 1)), 0);
}

#[test]
fn anniversary_is_zero_days_away_on_every_day_of_four_years() {
    for year in 2021..=2024 {
        for month in 1..=12 {
            for day in 1..=month_length(year, month) {
                assert_eq!(days_until_next_anniversary(month, day, on(year, month, day)), 0);
            }
        }
    }
}

#[test]
fn day_after_the_anniversary_is_a_year_less_a_day_away() {
    // No 29 February lies between 16 March 2024 and 15 March 2025.
    assert_eq!(days_until_next_anniversary(3, 15, on(2024, 3, 16)), 364);
    // 29 February 2024 lies between 16 March 2023 and 15 March 2024.
    assert_eq!(days_until_next_anniversary(3, 15, on(2023, 3, 16)), 365);
    assert_eq!(days_until_next_anniversary(1, 10, on(2024, 1, 11)), 365);
    assert_eq!(days_until_next_anniversary(1, 10, on(2023, 1, 11)), 364);
    assert_eq!(days_until_next_anniversary(2, 28, on(2024, 2, 29)), 365);
    assert_eq!(days_until_next_anniversary(2, 28, on(2023, 3, 1)), 364);
}

#[test]
fn day_after_the_anniversary_counts_364_or_365_on_every_day_of_four_years() {
    for year in 2021..=2024 {
        for month in 1..=12 {
            for day in 1..=month_length(year, month) {
                let tomorrow = if day < month_length(year, month) {
                    on(year, month, day + 1)
                } else if month < 12 {
                    on(year, month + 1, 1)
                } else {
                    on(year + 1, 1, 1)
                };
                assert_eq!(tomorrow.days_since(on(year, month, day)), 1);
                let days = days_until_next_anniversary(month, day, tomorrow);
                assert!(days == 364 || days == 365);
                let next = anniversary_in(year + 1, month, day);
                assert_eq!(i64::from(days) + 1, next.days_since(on(year, month, day)));
            }
        }
    }
}

#[test]
fn anniversary_on_new_years_eve_is_counted_within_the_year() {
    assert_eq!(days_until_next_anniversary(12, 31, on(2024, 1, 1)), 365);
    assert_eq!(days_until_next_anniversary(12, 31, on(2023, 1, 1)), 364);
    assert_eq!(days_until_next_anniversary(1, 1, on(2023, 12, 31)), 1);
}

#[test]
fn leap_day_is_kept_on_the_first_of_march_in_common_years() {
    assert_eq!(anniversary_in(2023, 2, 29), on(2023, 3, 1));
    assert_eq!(anniversary_in(2024, 2, 29), on(2024, 2, 29));
    assert_eq!(anniversary_in(1900, 2, 29), on(1900, 3, 1));
    assert_eq!(anniversary_in(2023, 2, 28), on(2023, 2, 28));
}

#[test]
fn leap_day_anniversary_counts_to_the_first_of_march_in_common_years() {
    assert_eq!(days_until_next_anniversary(2, 29, on(2023, 2, 28)), 1);
    assert_eq!(days_until_next_anniversary(2, 29, on(2023, 3, 1)), 0);
    assert_eq!(days_until_next_anniversary(2, 29, on(2023, 3, 2)), 364);
    assert_eq!(days_until_next_anniversary(2, 29, on(2024, 2, 28)), 1);
    assert_eq!(days_until_next_anniversary(2, 29, on(2024, 3, 1)), 365);
    assert_eq!(days_until_next_anniversary(2, 29, on(2025, 1, 1)), 59);
}

#[test]
fn count_never_exceeds_365() {
    let mut longest = 0;
    for year in 2021..=2024 {
        for month in 1..=12 {
            for day in 1..=month_length(year, month) {
                for (birth_month, birth_day) in [(1, 1), (2, 28), (2, 29), (3, 1), (12, 31)] {
                    let days = days_until_next_anniversary(birth_month, birth_day, on(year, month, day));
                    longest = longest.max(days);
                }
            }
        }
    }
    assert_eq!(longest, 365);
}

#[test]
fn count_reaches_into_the_last_year_of_the_calendar() {
    assert_eq!(days_until_next_anniversary(12, 31, on(MAX_YEAR, 12, 31)), 0);
    assert_eq!(days_until_next_anniversary(12, 31, on(MAX_YEAR, 1, 1)), 364);
    assert_eq!(days_until_next_anniversary(1, 1, on(MAX_YEAR - 1, 12, 31)), 1);
    assert_eq!(days_until_next_anniversary(1, 1, on(MIN_YEAR, 1, 2)), 364);
}

#[test]
fn checked_count_agrees_with_the_count() {
    assert_eq!(checked_days_until_next_anniversary(3, 15, on(2024, 3, 10)), Some(5));
    assert_eq!(checked_days_until_next_anniversary(3, 15, on(2024, 3, 20)), Some(360));
    assert_eq!(checked_days_until_next_anniversary(3, 15, on(2024, 3, 15)), Some(0));
    assert_eq!(checked_days_until_next_anniversary(2, 29, on(2023, 3, 2)), Some(364));
}

#[test]
fn checked_count_ends_with_the_calendar() {
    assert_eq!(checked_days_until_next_anniversary(7, 4, on(MAX_YEAR, 7, 3)), Some(1));
    assert_eq!(checked_days_until_next_anniversary(7, 4, on(MAX_YEAR, 7, 4)), Some(0));
    assert_eq!(checked_days_until_next_anniversary(7, 4, on(MAX_YEAR, 7, 5)), None);
    assert_eq!(checked_days_until_next_anniversary(1, 1, on(MAX_YEAR, 12, 31)), None);
    assert_eq!(checked_days_until_next_anniversary(12, 31, on(MAX_YEAR, 12, 31)), Some(0));
    assert_eq!(checked_days_until_next_anniversary(1, 1, on(MAX_YEAR - 1, 12, 31)), Some(1));
    // 29 February is kept on 1 March in the last year, which has none.
    assert_eq!(checked_days_until_next_anniversary(2, 29, on(MAX_YEAR, 3, 1)), Some(0));
    assert_eq!(checked_days_until_next_anniversary(2, 29, on(MAX_YEAR, 3, 2)), None);
}

#[test]
fn day_after_counts_365_exactly_when_a_leap_day_lies_in_the_span() {
    for year in 2019..=2024 {
        for month in 1..=12 {
            for day in 1..=month_length(year, month) {
                if (month, day) == (2, 29) {
                    continue;
                }
                let birthday = on(year, month, day);
                let tomorrow = if day < month_length(year, month) {
                    on(year, month, day + 1)
                } else if month < 12 {
                    on(year, month + 1, 1)
                } else {
                    on(year + 1, 1, 1)
                };
                let next = on(year + 1, month, day);
                let leap_day_between = [year, year + 1].iter().any(|&leap| {
                    Date::from_ymd_opt(leap, 2, 29)
                        .is_some_and(|leap_day| birthday.is_before(leap_day) && leap_day.is_before(next))
                });
                let days = days_until_next_anniversary(month, day, tomorrow);
                assert_eq!(days == 365, leap_day_between);
                assert_eq!(days == 364, !leap_day_between);
            }
        }
    }
}

#[test]
fn day_after_a_leap_day_counts_365() {
    assert_eq!(days_until_next_anniversary(2, 29, on(2024, 3, 1)), 365);
    assert_eq!(days_until_next_anniversary(2, 29, on(2000, 3, 1)), 365);
    assert_eq!(days_until_next_anniversary(2, 29, on(2096, 3, 1)), 365);
}
