//! The structured date/time value and the weekday calculator.
//!
//! `DateTime::weekday` runs the Doomsday algorithm and is proved to return
//! the day-count weekday of `gregorian::day_of_week_code` for every date of
//! the supported centuries.

use vstd::prelude::*;

use crate::calendar::DayOfWeek;
use crate::calendar::MonthOfYear;
use crate::errors::CoreError;
use crate::gregorian::day_of_week_code;
use crate::gregorian::lemma_century_base_cases;
use crate::gregorian::lemma_doomsday_terms;
use crate::gregorian::lemma_weekday_formula;
use crate::gregorian::spec_is_leap_year;
use crate::gregorian::supported_year;
use vstd::arithmetic::div_mod::lemma_add_mod_noop_right;

verus! {

/// Anchor day of the 1900s for the Doomsday algorithm.
pub const ANCHOR_DAY_1900: DayOfWeek = DayOfWeek::Wednesday;

/// Anchor day of the 2000s for the Doomsday algorithm.
pub const ANCHOR_DAY_2000: DayOfWeek = DayOfWeek::Tuesday;

/// Anchor day of the 2100s for the Doomsday algorithm.
pub const ANCHOR_DAY_2100: DayOfWeek = DayOfWeek::Sunday;

/// A structured date and time, as extracted by the timestamp parser.
/// Construction performs no range validation beyond what the field widths
/// give: an out-of-range month is caught later by the weekday calculator.
#[derive(Clone, Copy, Debug, PartialEq, Eq, Structural)]
pub struct DateTime {
    pub year: u16,
    pub month: u8,
    pub day: u8,
    pub hour: u8,
    pub minute: u8,
    pub second: u8,
}

impl DateTime {
    /// What the weekday calculator yields: the day-count weekday for a date
    /// in a supported century with a valid month, and otherwise the error
    /// naming the first check that failed (the century before the month).
    pub open spec fn spec_weekday(self) -> Result<DayOfWeek, CoreError> {
        if !supported_year(self.year as int) {
            Err(CoreError::UnsupportedCentury)
        } else if !(1 <= self.month <= 12) {
            Err(CoreError::InvalidMonth)
        } else {
            Ok(
                DayOfWeek::spec_from_day_number(
                    day_of_week_code(self.year as int, self.month as int, self.day as int),
                ),
            )
        }
    }

    /// Whether the year is a Gregorian leap year: divisible by 4 and not by
    /// 100, or divisible by 400.
    pub fn is_leap_year(&self) -> (r: bool)
        ensures
            r == spec_is_leap_year(self.year as int),
    {
        self.year % 400 == 0 || (self.year % 4 == 0 && self.year % 100 != 0)
    }

    /// The day of week of this date, by the Doomsday algorithm.
    ///
    /// For a date in a supported century with a valid month the result is
    /// the weekday of the day-count calendar model; a year outside the
    /// supported centuries or a month outside 1 through 12 is reported as
    /// the matching error.
    pub fn weekday(&self) -> (r: Result<DayOfWeek, CoreError>)
        ensures
            r == self.spec_weekday(),
    {
        proof {
            lemma_century_base_cases(self.year as int);
        }
        // Last two digits of the year, and the century they are cut from.
        let year_last_two: u16 = self.year % 100;
        let century: u16 = self.year - year_last_two;
        // Anchor day code for this century.
        let anchor_day: u16 = match century {
            1900 => ANCHOR_DAY_1900.as_day_number() as u16,
            2000 => ANCHOR_DAY_2000.as_day_number() as u16,
            2100 => ANCHOR_DAY_2100.as_day_number() as u16,
            _ => {
                return Err(CoreError::UnsupportedCentury);
            },
        };
        // The doomsday terms: the quotient by 12, the remainder modulo 12,
        // and the quarter of that remainder.
        let number_of_12s: u16 = year_last_two / 12;
        let last_two_mod_12: u16 = year_last_two % 12;
        let number_of_4s: u16 = last_two_mod_12 / 4;
        // Their sum with the century anchor, modulo 7, is the weekday code
        // shared by all of this year's anchor dates.
        let doomsday_number: u16 = (number_of_12s + last_two_mod_12 + number_of_4s + anchor_day)
            % 7;
        proof {
            let yy = year_last_two as int;
            lemma_doomsday_terms(yy);
            lemma_add_mod_noop_right(
                anchor_day as int,
                yy / 12 + yy % 12 + (yy % 12) / 4,
                7,
            );
            lemma_add_mod_noop_right(anchor_day as int, yy + yy / 4, 7);
            assert(doomsday_number == crate::gregorian::doomsday_code(self.year as int));
        }
        // Leap-year status picks January's and February's anchor dates.
        let leap_year = self.is_leap_year();
        let this_month = MonthOfYear::from_month_number(self.month as isize);
        let month_doomsday: isize = match this_month {
            Some(m) => m.anchor_date(leap_year),
            None => {
                return Err(CoreError::InvalidMonth);
            },
        };
        // Count from the anchor date to the target day of the month. The
        // added 35 days keep the running value non-negative and vanish
        // modulo 7.
        let shifted: u16 = doomsday_number + 35 + self.day as u16 - month_doomsday as u16;
        let day_counter: u16 = shifted % 7;
        proof {
            lemma_weekday_formula(
                self.year as int,
                MonthOfYear::spec_from_month_number(self.month as int),
                self.day as int,
            );
        }
        match DayOfWeek::from_day_number(day_counter as isize) {
            Some(day_of_week) => Ok(day_of_week),
            None => Err(CoreError::InvalidDayCode),
        }
    }
}

} // verus!
