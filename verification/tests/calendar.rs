use weekday_bins::calendar::DayOfWeek;
use weekday_bins::calendar::MonthOfYear;

#[test]
fn day_numbers_are_stable() {
    assert_eq!(DayOfWeek::Sunday.as_day_number(), 0);
    assert_eq!(DayOfWeek::Monday.as_day_number(), 1);
    assert_eq!(DayOfWeek::Tuesday.as_day_number(), 2);
    assert_eq!(DayOfWeek::Wednesday.as_day_number(), 3);
    assert_eq!(DayOfWeek::Thursday.as_day_number(), 4);
    assert_eq!(DayOfWeek::Friday.as_day_number(), 5);
    assert_eq!(DayOfWeek::Saturday.as_day_number(), 6);
}

#[test]
fn day_number_round_trip() {
    for code in 0..7isize {
        let day = DayOfWeek::from_day_number(code).unwrap();
        assert_eq!(day.as_day_number(), code);
    }
    assert!(DayOfWeek::from_day_number(7).is_none());
    assert!(DayOfWeek::from_day_number(-1).is_none());
}

#[test]
fn day_names() {
    assert_eq!(DayOfWeek::Sunday.name(), "Sunday");
    assert_eq!(DayOfWeek::Monday.name(), "Monday");
    assert_eq!(DayOfWeek::Tuesday.name(), "Tuesday");
    assert_eq!(DayOfWeek::Wednesday.name(), "Wednesday");
    assert_eq!(DayOfWeek::Thursday.name(), "Thursday");
    assert_eq!(DayOfWeek::Friday.name(), "Friday");
    assert_eq!(DayOfWeek::Saturday.name(), "Saturday");
}

#[test]
fn month_number_round_trip() {
    for code in 1..13isize {
        let month = MonthOfYear::from_month_number(code).unwrap();
        assert_eq!(month.as_month_number(), code);
    }
    assert!(MonthOfYear::from_month_number(0).is_none());
    assert!(MonthOfYear::from_month_number(13).is_none());
}

#[test]
fn anchor_dates_of_fixed_months() {
    assert_eq!(MonthOfYear::March.anchor_date(false), 7);
    assert_eq!(MonthOfYear::April.anchor_date(false), 4);
    assert_eq!(MonthOfYear::May.anchor_date(false), 9);
    assert_eq!(MonthOfYear::June.anchor_date(false), 6);
    assert_eq!(MonthOfYear::July.anchor_date(false), 11);
    assert_eq!(MonthOfYear::August.anchor_date(false), 8);
    assert_eq!(MonthOfYear::September.anchor_date(false), 5);
    assert_eq!(MonthOfYear::October.anchor_date(false), 10);
    assert_eq!(MonthOfYear::November.anchor_date(false), 7);
    assert_eq!(MonthOfYear::December.anchor_date(false), 12);
    for month in [
        MonthOfYear::March,
        MonthOfYear::April,
        MonthOfYear::May,
        MonthOfYear::June,
        MonthOfYear::July,
        MonthOfYear::August,
        MonthOfYear::September,
        MonthOfYear::October,
        MonthOfYear::November,
        MonthOfYear::December,
    ] {
        assert_eq!(month.anchor_date(true), month.anchor_date(false));
    }
}

#[test]
fn anchor_dates_depend_on_leap_year_for_january_and_february() {
    assert_eq!(MonthOfYear::January.anchor_date(false), 3);
    assert_eq!(MonthOfYear::January.anchor_date(true), 4);
    assert_eq!(MonthOfYear::February.anchor_date(false), 28);
    assert_eq!(MonthOfYear::February.anchor_date(true), 29);
}
