use weekday_bins::datetime::DateTime;
use weekday_bins::errors::CoreError;
use weekday_bins::timebin::TimeBin;

fn at_time(hour: u8, minute: u8) -> DateTime {
    DateTime { year: 2023, month: 1, day: 2, hour, minute, second: 0 }
}

#[test]
fn range_builds_contiguous_bins() {
    let bins = TimeBin::range(480, 30, 4).unwrap();
    assert_eq!(bins.len(), 4);
    for (k, bin) in bins.iter().enumerate() {
        assert_eq!(bin.lower_limit as usize, 480 + 30 * k);
        assert_eq!(bin.upper_limit as usize, 480 + 30 * (k + 1));
        assert_eq!(bin.count, 0);
    }
}

#[test]
fn range_covering_a_whole_day_is_accepted() {
    let bins = TimeBin::range(0, 60, 24).unwrap();
    assert_eq!(bins.len(), 24);
    assert_eq!(bins[23].upper_limit, 1440);
}

#[test]
fn range_spilling_past_midnight_is_rejected() {
    assert_eq!(TimeBin::range(0, 60, 25), Err(CoreError::RangeViolation));
    assert_eq!(TimeBin::range(1, 60, 24), Err(CoreError::RangeViolation));
    assert_eq!(TimeBin::range(1440, 1, 1), Err(CoreError::RangeViolation));
}

#[test]
fn add_counts_only_times_inside_the_window() {
    let mut bin = TimeBin { lower_limit: 480, upper_limit: 510, count: 0 };
    assert!(bin.add(at_time(8, 15)));
    assert_eq!(bin.count, 1);
    assert!(!bin.add(at_time(7, 59)));
    assert_eq!(bin.count, 1);
    assert!(bin.add(at_time(8, 0)));
    assert_eq!(bin.count, 2);
}

#[test]
fn boundary_time_belongs_to_the_later_bin() {
    let mut bins = TimeBin::range(480, 30, 2).unwrap();
    // 8:30 is exactly the upper limit of the first bin and the lower limit
    // of the second: it belongs to the second only.
    let boundary = at_time(8, 30);
    assert!(!bins[0].add(boundary));
    assert!(bins[1].add(boundary));
    assert_eq!(bins[0].count, 0);
    assert_eq!(bins[1].count, 1);
    // 9:00 is exactly the upper limit of the last bin: it belongs to none.
    let end = at_time(9, 0);
    assert!(!bins[0].add(end));
    assert!(!bins[1].add(end));
}
