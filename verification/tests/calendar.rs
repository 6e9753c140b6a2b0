use birthday_service::calendar::{Date, MAX_YEAR, MIN_YEAR};

fn date(year: i32, month: u32, day: u32) -> Date {
    Date::from_ymd_opt(year, month, day).unwrap()
}

#[test]
fn from_ymd_opt_keeps_year_month_and_day() {
    let d = date(2024, 3, 10);
    assert_eq!(d.year, 2024);
    assert_eq!(d.month, 3);
    assert_eq!(d.day, 10);
}

#[test]
fn from_ymd_opt_refuses_days_that_the_month_lacks() {
    assert!(Date::from_ymd_opt(2023, 4, 31).is_none());
    assert!(Date::from_ymd_opt(2023, 1, 32).is_none());
    assert!(Date::from_ymd_opt(2023, 1, 0).is_none());
    assert!(Date::from_ymd_opt(2023, 0, 1).is_none());
    assert!(Date::from_ymd_opt(2023, 13, 1).is_none());
}

#[test]
fn from_ymd_opt_knows_leap_years() {
    assert!(Date::from_ymd_opt(2024, 2, 29).is_some());
    assert!(Date::from_ymd_opt(2023, 2, 29).is_none());
    assert!(Date::from_ymd_opt(1900, 2, 29).is_none());
    assert!(Date::from_ymd_opt(2000, 2, 29).is_some());
    assert!(Date::from_ymd_opt(0, 2, 29).is_some());
    assert!(Date::from_ymd_opt(-4, 2, 29).is_some());
}

#[test]
fn from_ymd_opt_ends_at_the_last_supported_year() {
    assert!(Date::from_ymd_opt(MAX_YEAR, 12, 31).is_some());
    assert!(Date::from_ymd_opt(MAX_YEAR + 1, 1, 1).is_none());
    assert!(Date::from_ymd_opt(MIN_YEAR, 1, 1).is_some());
    assert!(Date::from_ymd_opt(MIN_YEAR - 1, 12, 31).is_none());
}

#[test]
fn days_since_counts_calendar_days() {
    assert_eq!(date(2014, 1, 1).days_since(date(2014, 1, 1)), 0);
    assert_eq!(date(2014, 1, 1).days_since(date(2013, 12, 31)), 1);
    assert_eq!(date(2014, 1, 1).days_since(date(2014, 1, 2)), -1);
    assert_eq!(date(2014, 1, 1).days_since(date(2013, 9, 23)), 100);
    assert_eq!(date(2014, 1, 1).days_since(date(2013, 1, 1)), 365);
    assert_eq!(date(2014, 1, 1).days_since(date(2010, 1, 1)), 365 * 4 + 1);
    assert_eq!(date(2014, 1, 1).days_since(date(1614, 1, 1)), 365 * 400 + 97);
}

#[test]
fn days_since_counts_from_year_one() {
    // 1 January of year 1 has the day number 1.
    let first = date(1, 1, 1);
    assert_eq!(date(1, 12, 31).days_since(first), 364);
    assert_eq!(date(2, 1, 1).days_since(first), 365);
    assert_eq!(date(0, 12, 31).days_since(first), -1);
    assert_eq!(date(0, 1, 1).days_since(first), -366);
    assert_eq!(date(1970, 1, 1).days_since(first), 719_162);
}

#[test]
fn days_since_spans_the_whole_range() {
    let span = date(MAX_YEAR, 12, 31).days_since(date(MIN_YEAR, 1, 1));
    assert_eq!(span, 191_491_528);
}

#[test]
fn is_before_orders_by_year_then_month_then_day() {
    assert!(date(2023, 12, 31).is_before(date(2024, 1, 1)));
    assert!(date(2024, 2, 29).is_before(date(2024, 3, 1)));
    assert!(date(2024, 3, 1).is_before(date(2024, 3, 2)));
    assert!(!date(2024, 3, 2).is_before(date(2024, 3, 2)));
    assert!(!date(2024, 3, 2).is_before(date(2024, 3, 1)));
    assert!(!date(2024, 1, 31).is_before(date(2023, 12, 1)));
}

#[test]
fn is_before_agrees_with_days_since() {
    let days = [
        date(1999, 12, 31),
        date(2000, 1, 1),
        date(2000, 2, 29),
        date(2000, 3, 1),
        date(2001, 2, 28),
        date(-1, 6, 15),
    ];
    for a in days {
        for b in days {
            assert_eq!(a.is_before(b), a.days_since(b) < 0);
        }
    }
}

#[test]
fn parse_reads_year_month_and_day() {
    assert_eq!(Date::parse("1990-07-04"), Some(date(1990, 7, 4)));
    assert_eq!(Date::parse("2024-02-29"), Some(date(2024, 2, 29)));
    assert_eq!(Date::parse("+12345-6-7"), Some(date(12345, 6, 7)));
}

#[test]
fn parse_refuses_what_is_no_date() {
    assert_eq!(Date::parse("foo"), None);
    assert_eq!(Date::parse(""), None);
    assert_eq!(Date::parse("2023-02-29"), None);
    assert_eq!(Date::parse("2023-13-01"), None);
    assert_eq!(Date::parse("1990-07-04T00:00:00"), None);
    assert_eq!(Date::parse("04/07/1990"), None);
}

#[test]
fn today_is_a_day_of_the_calendar() {
    let today = Date::today();
    assert_eq!(Date::from_ymd_opt(today.year, today.month, today.day), Some(today));
    assert!(today.year >= 2024);
}
