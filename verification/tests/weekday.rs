use weekday_bins::calendar::DayOfWeek;
use weekday_bins::datetime::DateTime;
use weekday_bins::errors::CoreError;

fn date(year: u16, month: u8, day: u8) -> DateTime {
    DateTime { year, month, day, hour: 0, minute: 0, second: 0 }
}

/// An independent check: count the days elapsed since Monday, 1900-01-01,
/// one year and one month length at a time.
fn reference_weekday_code(year: u16, month: u8, day: u8) -> isize {
    let leap = |y: u32| y % 400 == 0 || (y % 4 == 0 && y % 100 != 0);
    let mut days: u32 = 0;
    for y in 1900..year as u32 {
        days += if leap(y) { 366 } else { 365 };
    }
    let lengths: [u32; 12] = [31, 28, 31, 30, 31, 30, 31, 31, 30, 31, 30, 31];
    for m in 1..month as u32 {
        days += lengths[(m - 1) as usize];
        if m == 2 && leap(year as u32) {
            days += 1;
        }
    }
    days += day as u32 - 1;
    // The epoch itself was a Monday, code 1.
    ((1 + days) % 7) as isize
}

fn days_in_month(year: u16, month: u8) -> u8 {
    let leap = year % 400 == 0 || (year % 4 == 0 && year % 100 != 0);
    match month {
        2 => {
            if leap {
                29
            } else {
                28
            }
        }
        4 | 6 | 9 | 11 => 30,
        _ => 31,
    }
}

#[test]
fn known_fixed_dates() {
    assert_eq!(date(2000, 1, 1).weekday(), Ok(DayOfWeek::Saturday));
    assert_eq!(date(2023, 1, 1).weekday(), Ok(DayOfWeek::Sunday));
    assert_eq!(date(2024, 2, 29).weekday(), Ok(DayOfWeek::Thursday));
    assert_eq!(date(1900, 1, 1).weekday(), Ok(DayOfWeek::Monday));
}

#[test]
fn matches_reference_computation_for_sampled_years() {
    for year in [1900u16, 1999, 2000, 2023, 2100, 2199] {
        for month in 1..=12u8 {
            for day in 1..=days_in_month(year, month) {
                let expected = reference_weekday_code(year, month, day);
                let computed = date(year, month, day).weekday().unwrap().as_day_number();
                assert_eq!(
                    computed, expected,
                    "wrong weekday for {}-{}-{}",
                    year, month, day
                );
            }
        }
    }
}

#[test]
fn leap_year_rule() {
    assert!(date(2000, 1, 1).is_leap_year());
    assert!(date(2400, 1, 1).is_leap_year());
    assert!(!date(1900, 1, 1).is_leap_year());
    assert!(!date(2100, 1, 1).is_leap_year());
    assert!(date(2024, 1, 1).is_leap_year());
    assert!(!date(2023, 1, 1).is_leap_year());
}

#[test]
fn years_outside_supported_centuries_are_rejected() {
    assert_eq!(date(1850, 6, 15).weekday(), Err(CoreError::UnsupportedCentury));
    assert_eq!(date(2250, 6, 15).weekday(), Err(CoreError::UnsupportedCentury));
    assert_eq!(date(1899, 12, 31).weekday(), Err(CoreError::UnsupportedCentury));
    assert_eq!(date(2200, 1, 1).weekday(), Err(CoreError::UnsupportedCentury));
    assert_eq!(date(0, 1, 1).weekday(), Err(CoreError::UnsupportedCentury));
}

#[test]
fn supported_boundary_years_are_accepted() {
    assert!(date(1900, 1, 1).weekday().is_ok());
    assert!(date(2199, 12, 31).weekday().is_ok());
}

#[test]
fn invalid_months_are_rejected() {
    assert_eq!(date(2023, 0, 1).weekday(), Err(CoreError::InvalidMonth));
    assert_eq!(date(2023, 13, 1).weekday(), Err(CoreError::InvalidMonth));
    // The century check comes first: a bad month of an unsupported year
    // reports the century.
    assert_eq!(date(1850, 13, 1).weekday(), Err(CoreError::UnsupportedCentury));
}
