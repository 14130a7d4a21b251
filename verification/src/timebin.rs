//! The time-bin aggregator: contiguous half-open windows of
//! minutes-from-midnight, each counting the records whose time of day falls
//! inside it.

use vstd::prelude::*;

use crate::datetime::DateTime;
use crate::errors::CoreError;
use vstd::arithmetic::mul::lemma_mul_inequality;

verus! {

/// The number of minutes in one day.
pub const MINUTES_PER_DAY: u16 = 1440;

/// A half-open window of minutes-from-midnight (lower inclusive, upper
/// exclusive) with a counter of the records added to it.
#[derive(Clone, Copy, Debug, PartialEq, Eq, Structural)]
pub struct TimeBin {
    pub lower_limit: u16,
    pub upper_limit: u16,
    pub count: u64,
}

impl TimeBin {
    /// The minutes-from-midnight of a date/time's hour and minute fields.
    pub open spec fn spec_time_of_day(datetime: DateTime) -> int {
        datetime.hour * 60 + datetime.minute
    }

    /// The time of day lies inside this bin's half-open window.
    pub open spec fn spec_contains(self, time_of_day: int) -> bool {
        self.lower_limit <= time_of_day < self.upper_limit
    }

    /// Build `number` contiguous bins of `interval` minutes each, starting
    /// at `start_time` minutes from midnight, all with a zero count; the
    /// request is rejected when the bins would spill past midnight.
    pub fn range(start_time: u16, interval: u16, number: u16) -> (r: Result<Vec<TimeBin>, CoreError>)
        ensures
            (r is Ok) <==> start_time + number * interval <= MINUTES_PER_DAY,
            r matches Ok(bins) ==> {
                &&& bins@.len() == number
                &&& forall|k: int|
                    0 <= k < number ==> bins@[k].lower_limit == start_time + k * interval
                &&& forall|k: int|
                    0 <= k < number ==> bins@[k].upper_limit == start_time + (k + 1) * interval
                &&& forall|k: int| 0 <= k < number ==> bins@[k].count == 0
            },
            start_time + number * interval > MINUTES_PER_DAY ==> r == Err::<
                Vec<TimeBin>,
                CoreError,
            >(CoreError::RangeViolation),
    {
        proof {
            vstd::arithmetic::mul::lemma_mul_upper_bound(
                number as int,
                u16::MAX as int,
                interval as int,
                u16::MAX as int,
            );
        }
        // All bins must fall within a single day.
        if (start_time as u32) + (number as u32) * (interval as u32) > (MINUTES_PER_DAY as u32) {
            Err(CoreError::RangeViolation)
        } else {
            let mut bins: Vec<TimeBin> = Vec::new();
            let mut i: u16 = 0;
            while i < number
                invariant
                    i <= number,
                    start_time + number * interval <= MINUTES_PER_DAY,
                    bins@.len() == i,
                    forall|k: int|
                        0 <= k < i ==> bins@[k].lower_limit == start_time + k * interval,
                    forall|k: int|
                        0 <= k < i ==> bins@[k].upper_limit == start_time + (k + 1) * interval,
                    forall|k: int| 0 <= k < i ==> bins@[k].count == 0,
                decreases number - i,
            {
                proof {
                    lemma_mul_inequality(i as int, number as int, interval as int);
                    lemma_mul_inequality(i as int + 1, number as int, interval as int);
                }
                bins.push(
                    TimeBin {
                        lower_limit: start_time + i * interval,
                        upper_limit: start_time + (i + 1) * interval,
                        count: 0,
                    },
                );
                i = i + 1;
            }
            Ok(bins)
        }
    }

    /// Count the record into this bin when its time of day falls inside the
    /// bin's window; otherwise leave the bin unchanged. Returns whether the
    /// record was counted.
    pub fn add(&mut self, datetime: DateTime) -> (r: bool)
        requires
            old(self).count < u64::MAX,
        ensures
            r == old(self).spec_contains(TimeBin::spec_time_of_day(datetime)),
            r ==> *final(self) == (TimeBin {
                lower_limit: old(self).lower_limit,
                upper_limit: old(self).upper_limit,
                count: (old(self).count + 1) as u64,
            }),
            !r ==> *final(self) == *old(self),
    {
        let time_to_check: u16 = (datetime.hour as u16) * 60 + (datetime.minute as u16);
        if time_to_check >= self.lower_limit && time_to_check < self.upper_limit {
            self.count = self.count + 1;
            true
        } else {
            false
        }
    }
}

/// A time exactly on the boundary of two adjoining bins belongs to the later
/// bin (whose lower limit it equals, when that bin is not empty) and never
/// to the earlier one (whose upper limit it equals).
pub proof fn lemma_bin_boundary(earlier: TimeBin, later: TimeBin, t: int)
    requires
        earlier.upper_limit == later.lower_limit,
        t == earlier.upper_limit,
    ensures
        !earlier.spec_contains(t),
        later.lower_limit < later.upper_limit ==> later.spec_contains(t),
{
}

} // verus!
