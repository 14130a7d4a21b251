//! The weekly binner: consumes raw text lines of the form
//! `<timestamp>,<payload>`, parses each timestamp, computes its weekday, and
//! routes the record into one of seven weekday buckets. A failing line is
//! reported and skipped; it never aborts the processing of later lines.

use vstd::prelude::*;

use crate::calendar::DayOfWeek;
use crate::datetime::DateTime;
use crate::errors::CoreError;
use crate::parse::parse_date;
use crate::parse::spec_parse_date;
use vstd::string::StrSliceExecFns;

verus! {

/// The position of the first comma at or after `i`, if any.
pub open spec fn first_comma_from(s: Seq<char>, i: int) -> Option<int>
    decreases s.len() - i,
{
    if i >= s.len() {
        None
    } else if s[i] == ',' {
        Some(i)
    } else {
        first_comma_from(s, i + 1)
    }
}

/// What one line yields: the record and its weekday when the line has a
/// delimiter, its timestamp parses, and the weekday calculator accepts the
/// date; otherwise the error of the first stage that failed.
pub open spec fn spec_line_result(s: Seq<char>) -> Result<(DateTime, DayOfWeek), CoreError> {
    match first_comma_from(s, 0) {
        None => Err(CoreError::ParseFailure),
        Some(p) => match spec_parse_date(s.subrange(0, p)) {
            None => Err(CoreError::ParseFailure),
            Some(dt) => match dt.spec_weekday() {
                Ok(day) => Ok((dt, day)),
                Err(e) => Err(e),
            },
        },
    }
}

/// Seven empty buckets.
pub open spec fn empty_buckets() -> Seq<Seq<DateTime>> {
    seq![
        Seq::<DateTime>::empty(),
        Seq::<DateTime>::empty(),
        Seq::<DateTime>::empty(),
        Seq::<DateTime>::empty(),
        Seq::<DateTime>::empty(),
        Seq::<DateTime>::empty(),
        Seq::<DateTime>::empty(),
    ]
}

/// The seven weekday buckets that a sequence of lines fills: each record of
/// a successful line is appended, in line order, to the bucket indexed by
/// its weekday's numeric code; failing lines contribute nothing.
pub open spec fn spec_buckets_of(lines: Seq<Seq<char>>) -> Seq<Seq<DateTime>>
    decreases lines.len(),
{
    if lines.len() == 0 {
        empty_buckets()
    } else {
        let prev = spec_buckets_of(lines.drop_last());
        match spec_line_result(lines.last()) {
            Ok((dt, day)) => {
                let code = day.spec_day_number();
                prev.update(code, prev[code].push(dt))
            },
            Err(_) => prev,
        }
    }
}

/// An ordered collection of exactly seven record lists, indexed by the
/// numeric code of the weekday that each record resolved to.
pub struct WeeklyBuckets {
    pub days: Vec<Vec<DateTime>>,
}

impl WeeklyBuckets {
    /// There is one bucket for each of the seven weekdays.
    pub open spec fn wf(self) -> bool {
        self.days@.len() == 7
    }

    /// The buckets' contents as sequences.
    pub open spec fn spec_days(self) -> Seq<Seq<DateTime>> {
        self.days@.map_values(|v: Vec<DateTime>| v@)
    }

    /// Seven empty buckets.
    pub fn new() -> (r: WeeklyBuckets)
        ensures
            r.wf(),
            r.spec_days() =~= empty_buckets(),
    {
        let mut days: Vec<Vec<DateTime>> = Vec::new();
        days.push(Vec::new());
        days.push(Vec::new());
        days.push(Vec::new());
        days.push(Vec::new());
        days.push(Vec::new());
        days.push(Vec::new());
        days.push(Vec::new());
        WeeklyBuckets { days }
    }

    /// Append a record to the bucket with the given day code.
    pub fn push(&mut self, day_number: usize, datetime: DateTime)
        requires
            old(self).wf(),
            day_number < 7,
        ensures
            final(self).wf(),
            final(self).spec_days() =~= old(self).spec_days().update(
                day_number as int,
                old(self).spec_days()[day_number as int].push(datetime),
            ),
    {
        let mut bucket = self.days.remove(day_number);
        bucket.push(datetime);
        self.days.insert(day_number, bucket);
    }

    /// How many records the bucket with the given day code holds.
    pub fn count(&self, day_number: usize) -> (n: usize)
        requires
            self.wf(),
            day_number < 7,
        ensures
            n == self.spec_days()[day_number as int].len(),
    {
        self.days[day_number].len()
    }

    /// The records of the bucket with the given day code, in arrival order.
    pub fn bucket(&self, day_number: usize) -> (r: &Vec<DateTime>)
        requires
            self.wf(),
            day_number < 7,
        ensures
            r@ == self.spec_days()[day_number as int],
    {
        &self.days[day_number]
    }
}

/// The position of the first comma of the line, if any.
fn find_comma(s: &str) -> (r: Option<usize>)
    ensures
        match r {
            Some(p) => p < s@.len() && first_comma_from(s@, 0) == Some(p as int),
            None => first_comma_from(s@, 0) is None,
        },
{
    let n = s.unicode_len();
    let mut i: usize = 0;
    loop
        invariant
            n == s@.len(),
            i <= n,
            first_comma_from(s@, 0) == first_comma_from(s@, i as int),
        decreases n - i,
    {
        if i >= n {
            return None;
        }
        if s.get_char(i) == ',' {
            return Some(i);
        }
        i = i + 1;
    }
}

/// The views of a sequence of lines.
pub open spec fn line_views(lines: Seq<String>) -> Seq<Seq<char>> {
    lines.map_values(|l: String| l@)
}

/// Consume the lines in order. Each line is split at its first comma, the
/// part before the comma is parsed as a timestamp, and the record is pushed
/// into the weekday bucket that the calculator resolves it to. The second
/// result reports, per line, the weekday or the error of the stage that
/// failed; a failing line is skipped and later lines are still processed.
pub fn bin_lines(lines: &Vec<String>) -> (r: (
    WeeklyBuckets,
    Vec<Result<(DateTime, DayOfWeek), CoreError>>,
))
    ensures
        r.0.wf(),
        r.0.spec_days() == spec_buckets_of(line_views(lines@)),
        r.1@.len() == lines@.len(),
        forall|k: int| 0 <= k < lines@.len() ==> r.1@[k] == spec_line_result(lines@[k]@),
{
    let ghost all = line_views(lines@);
    let mut buckets = WeeklyBuckets::new();
    let mut outcomes: Vec<Result<(DateTime, DayOfWeek), CoreError>> = Vec::new();
    let mut idx: usize = 0;
    proof {
        assert(all.take(0) =~= Seq::<Seq<char>>::empty());
    }
    while idx < lines.len()
        invariant
            all == line_views(lines@),
            idx <= lines@.len(),
            buckets.wf(),
            buckets.spec_days() == spec_buckets_of(all.take(idx as int)),
            outcomes@.len() == idx,
            forall|k: int| 0 <= k < idx ==> outcomes@[k] == spec_line_result(lines@[k]@),
        decreases lines@.len() - idx,
    {
        let line: &String = &lines[idx];
        let ghost s = line@;
        let ghost prev_days = buckets.spec_days();
        let outcome: Result<(DateTime, DayOfWeek), CoreError> = match find_comma(line.as_str()) {
            None => Err(CoreError::ParseFailure),
            Some(p) => {
                let timestamp_part = line.as_str().substring_char(0, p);
                match parse_date(timestamp_part) {
                    None => Err(CoreError::ParseFailure),
                    Some(datetime) => {
                        match datetime.weekday() {
                            Ok(day_of_week) => {
                                let code = day_of_week.as_day_number() as usize;
                                buckets.push(code, datetime);
                                Ok((datetime, day_of_week))
                            },
                            Err(e) => Err(e),
                        }
                    },
                }
            },
        };
        outcomes.push(outcome);
        proof {
            assert(all.take(idx + 1).drop_last() =~= all.take(idx as int));
            assert(all.take(idx + 1).last() == s);
            match spec_line_result(s) {
                Ok((dt, day)) => {
                    let code = day.spec_day_number();
                    assert(buckets.spec_days() =~= prev_days.update(code, prev_days[code].push(dt)));
                },
                Err(_) => {},
            }
            assert(buckets.spec_days() == spec_buckets_of(all.take(idx + 1)));
        }
        idx = idx + 1;
    }
    proof {
        assert(all.take(lines@.len() as int) =~= all);
    }
    (buckets, outcomes)
}

} // verus!
