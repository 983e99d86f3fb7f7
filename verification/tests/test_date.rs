use chrono::NaiveDate;
use cosmicrust::date::{Date, MAX_YEAR, MIN_YEAR};

#[test]
fn date_keeps_year_month_and_day() {
    let date = Date::from_ymd_opt(2022, 5, 22).unwrap();
    assert_eq!(date.year(), 2022);
    assert_eq!(date.month(), 5);
    assert_eq!(date.day(), 22);
    assert_eq!(date, Date::from_ymd_opt(2022, 5, 22).unwrap());
    assert!(date != Date::from_ymd_opt(2022, 5, 23).unwrap());
}

#[test]
fn days_that_the_calendar_does_not_have_are_refused() {
    assert!(Date::from_ymd_opt(2015, 3, 14).is_some());
    assert!(Date::from_ymd_opt(2015, 0, 14).is_none());
    assert!(Date::from_ymd_opt(2015, 13, 14).is_none());
    assert!(Date::from_ymd_opt(2015, 3, 0).is_none());
    assert!(Date::from_ymd_opt(2015, 3, 32).is_none());
    assert!(Date::from_ymd_opt(2015, 2, 29).is_none());
    assert!(Date::from_ymd_opt(2016, 2, 29).is_some());
    assert!(Date::from_ymd_opt(1900, 2, 29).is_none());
    assert!(Date::from_ymd_opt(2000, 2, 29).is_some());
    assert!(Date::from_ymd_opt(-4, 2, 29).is_some());
    assert!(Date::from_ymd_opt(0, 2, 29).is_some());
    assert!(Date::from_ymd_opt(-100, 2, 29).is_none());
    assert!(Date::from_ymd_opt(-400, 2, 29).is_some());
    assert!(Date::from_ymd_opt(2023, 4, 31).is_none());
    assert!(Date::from_ymd_opt(2023, 4, 30).is_some());
    assert!(Date::from_ymd_opt(2023, 12, 31).is_some());
}

#[test]
fn years_out_of_range_are_refused() {
    assert_eq!(MIN_YEAR, -262143);
    assert_eq!(MAX_YEAR, 262142);
    assert!(Date::from_ymd_opt(MIN_YEAR, 1, 1).is_some());
    assert!(Date::from_ymd_opt(MIN_YEAR - 1, 12, 31).is_none());
    assert!(Date::from_ymd_opt(MAX_YEAR, 12, 31).is_some());
    assert!(Date::from_ymd_opt(MAX_YEAR + 1, 1, 1).is_none());
    assert!(Date::from_ymd_opt(400000, 1, 1).is_none());
    assert!(Date::from_ymd_opt(-400000, 1, 1).is_none());
    assert!(Date::from_ymd_opt(i32::MAX, 1, 1).is_none());
    assert!(Date::from_ymd_opt(i32::MIN, 1, 1).is_none());
}

fn is_leap_year(year: i32) -> bool {
    year.rem_euclid(4) == 0 && (year.rem_euclid(100) != 0 || year.rem_euclid(400) == 0)
}

fn days_in_month(year: i32, month: u32) -> u32 {
    match month {
        2 => {
            if is_leap_year(year) {
                29
            } else {
                28
            }
        },
        4 | 6 | 9 | 11 => 30,
        _ => 31,
    }
}

#[test]
fn the_calendar_is_the_proleptic_gregorian_one() {
    let years = (-2100..=2500).chain(MIN_YEAR - 2..=MIN_YEAR + 2).chain(MAX_YEAR - 2..=MAX_YEAR + 2);
    for year in years {
        for month in 0..=14u32 {
            for day in 0..=33u32 {
                let expected = MIN_YEAR <= year
                    && year <= MAX_YEAR
                    && 1 <= month
                    && month <= 12
                    && 1 <= day
                    && day <= days_in_month(year, month);
                assert_eq!(Date::from_ymd_opt(year, month, day).is_some(), expected);
            }
        }
    }
}

#[test]
fn the_order_of_dates_is_that_of_the_calendar() {
    let days = [
        (-5, 12, 31),
        (2021, 12, 31),
        (2022, 1, 1),
        (2022, 1, 31),
        (2022, 2, 1),
        (2022, 5, 22),
        (2022, 5, 23),
        (2022, 6, 1),
        (2023, 1, 1),
    ];
    for a in days {
        for b in days {
            let first = Date::from_ymd_opt(a.0, a.1, a.2).unwrap();
            let second = Date::from_ymd_opt(b.0, b.1, b.2).unwrap();
            let naive_first = NaiveDate::from_ymd_opt(a.0, a.1, a.2).unwrap();
            let naive_second = NaiveDate::from_ymd_opt(b.0, b.1, b.2).unwrap();
            assert_eq!(first.is_before(&second), naive_first < naive_second);
            assert_eq!(first == second, naive_first == naive_second);
        }
    }
}
