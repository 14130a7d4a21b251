use weekday_bins::datetime::DateTime;
use weekday_bins::parse::format_timestamp;
use weekday_bins::parse::parse_date;

#[test]
fn parses_a_well_formed_timestamp() {
    let parsed = parse_date("2023-01-02T08:15:00Z").unwrap();
    assert_eq!(
        parsed,
        DateTime { year: 2023, month: 1, day: 2, hour: 8, minute: 15, second: 0 }
    );
}

#[test]
fn leading_zeros_parse_as_plain_numbers() {
    let parsed = parse_date("0042-05-07T00:09:05Z").unwrap();
    assert_eq!(
        parsed,
        DateTime { year: 42, month: 5, day: 7, hour: 0, minute: 9, second: 5 }
    );
}

#[test]
fn finds_the_pattern_inside_a_longer_fragment() {
    let parsed = parse_date("logged at 1999-12-31T23:59:59Z exactly").unwrap();
    assert_eq!(
        parsed,
        DateTime { year: 1999, month: 12, day: 31, hour: 23, minute: 59, second: 59 }
    );
}

#[test]
fn takes_the_leftmost_match() {
    let parsed = parse_date("2001-02-03T04:05:06Z 2007-08-09T10:11:12Z").unwrap();
    assert_eq!(parsed.year, 2001);
}

#[test]
fn malformed_fragments_yield_nothing() {
    assert!(parse_date("garbage").is_none());
    assert!(parse_date("").is_none());
    assert!(parse_date("2023-01-02 08:15:00").is_none());
    assert!(parse_date("2023-01-02T08:15:00").is_none());
    assert!(parse_date("23-01-02T08:15:00Z").is_none());
    assert!(parse_date("2023:01:02T08:15:00Z").is_none());
}

#[test]
fn out_of_range_groups_still_match_the_pattern() {
    // No range validation happens in the parser: a month of 13 is caught
    // later by the weekday calculator.
    let parsed = parse_date("2023-13-01T00:00:00Z").unwrap();
    assert_eq!(parsed.month, 13);
}

#[test]
fn format_pads_every_field() {
    let dt = DateTime { year: 42, month: 5, day: 7, hour: 0, minute: 9, second: 5 };
    assert_eq!(format_timestamp(&dt), "0042-05-07T00:09:05Z");
    let dt = DateTime { year: 2023, month: 12, day: 31, hour: 23, minute: 59, second: 58 };
    assert_eq!(format_timestamp(&dt), "2023-12-31T23:59:58Z");
}

#[test]
fn display_text_leaves_fields_unpadded() {
    let dt = DateTime { year: 2023, month: 1, day: 2, hour: 8, minute: 15, second: 0 };
    assert_eq!(dt.to_display_string(), "2023-1-2 8:15:0");
    let dt = DateTime { year: 42, month: 10, day: 31, hour: 0, minute: 0, second: 59 };
    assert_eq!(dt.to_display_string(), "42-10-31 0:0:59");
}

#[test]
fn format_then_parse_round_trips() {
    let samples = [
        DateTime { year: 2023, month: 1, day: 2, hour: 8, minute: 15, second: 0 },
        DateTime { year: 0, month: 0, day: 0, hour: 0, minute: 0, second: 0 },
        DateTime { year: 9999, month: 99, day: 99, hour: 99, minute: 99, second: 99 },
        DateTime { year: 1900, month: 2, day: 28, hour: 23, minute: 0, second: 59 },
    ];
    for dt in samples {
        let text = format_timestamp(&dt);
        assert_eq!(parse_date(&text), Some(dt));
    }
}
