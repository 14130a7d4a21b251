use weekday_bins::binner::bin_lines;
use weekday_bins::calendar::DayOfWeek;
use weekday_bins::datetime::DateTime;
use weekday_bins::errors::CoreError;

fn lines(texts: &[&str]) -> Vec<String> {
    texts.iter().map(|t| t.to_string()).collect()
}

#[test]
fn end_to_end_three_lines() {
    let input = lines(&[
        "2023-01-02T08:15:00Z,x",
        "not-a-date,y",
        "2023-01-03T23:59:00Z,z",
    ]);
    let (buckets, outcomes) = bin_lines(&input);
    let monday_record = DateTime { year: 2023, month: 1, day: 2, hour: 8, minute: 15, second: 0 };
    let tuesday_record = DateTime { year: 2023, month: 1, day: 3, hour: 23, minute: 59, second: 0 };
    assert_eq!(
        outcomes,
        vec![
            Ok((monday_record, DayOfWeek::Monday)),
            Err(CoreError::ParseFailure),
            Ok((tuesday_record, DayOfWeek::Tuesday)),
        ]
    );
    // The first record lands under Monday, the third under Tuesday, and
    // every other weekday bucket stays empty.
    assert_eq!(buckets.count(1), 1);
    assert_eq!(buckets.count(2), 1);
    for code in [0usize, 3, 4, 5, 6] {
        assert_eq!(buckets.count(code), 0);
    }
    assert_eq!(buckets.bucket(1)[0], monday_record);
    assert_eq!(buckets.bucket(2)[0], tuesday_record);
}

#[test]
fn line_without_a_delimiter_is_a_parse_failure() {
    let input = lines(&["2023-13-01T00:00:00Z", "garbage", ""]);
    let (buckets, outcomes) = bin_lines(&input);
    assert_eq!(
        outcomes,
        vec![
            Err(CoreError::ParseFailure),
            Err(CoreError::ParseFailure),
            Err(CoreError::ParseFailure),
        ]
    );
    for code in 0..7usize {
        assert_eq!(buckets.count(code), 0);
    }
}

#[test]
fn calculator_errors_are_reported_per_line() {
    let input = lines(&[
        "1850-01-01T00:00:00Z,old",
        "2023-13-01T00:00:00Z,bad month",
        "2023-01-02T08:15:00Z,good",
    ]);
    let (buckets, outcomes) = bin_lines(&input);
    assert!(matches!(outcomes[0], Err(CoreError::UnsupportedCentury)));
    assert!(matches!(outcomes[1], Err(CoreError::InvalidMonth)));
    assert!(matches!(outcomes[2], Ok((_, DayOfWeek::Monday))));
    assert_eq!(buckets.count(1), 1);
}

#[test]
fn a_failing_line_does_not_stop_later_lines() {
    let input = lines(&[
        "no comma here",
        "2023-01-02T08:15:00Z,first",
        "1850-01-01T00:00:00Z,too old",
        "2023-01-09T09:00:00Z,second",
    ]);
    let (buckets, outcomes) = bin_lines(&input);
    assert_eq!(outcomes.len(), 4);
    // Both Mondays arrive, in input order.
    assert_eq!(buckets.count(1), 2);
    assert_eq!(buckets.bucket(1)[0].day, 2);
    assert_eq!(buckets.bucket(1)[1].day, 9);
}

#[test]
fn no_lines_leave_all_buckets_empty() {
    let (buckets, outcomes) = bin_lines(&Vec::new());
    assert!(outcomes.is_empty());
    for code in 0..7usize {
        assert_eq!(buckets.count(code), 0);
    }
}

#[test]
fn only_the_part_before_the_comma_is_parsed() {
    // The timestamp sits after the first comma, so the line fails.
    let input = lines(&[",2023-01-02T08:15:00Z"]);
    let (_, outcomes) = bin_lines(&input);
    assert_eq!(outcomes, vec![Err(CoreError::ParseFailure)]);
}
