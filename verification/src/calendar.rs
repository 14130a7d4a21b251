//! The two closed calendar enumerations: days of the week and months of the
//! year, with their numeric codes and the anchor dates used by the Doomsday
//! algorithm.

use vstd::prelude::*;

verus! {

/// A day of the week. The numeric codes (Sunday = 0 through Saturday = 6)
/// are the bucket indices used by the weekly binner and must stay stable.
#[derive(Clone, Copy, Debug, PartialEq, Eq, Structural)]
pub enum DayOfWeek {
    Monday,
    Tuesday,
    Wednesday,
    Thursday,
    Friday,
    Saturday,
    Sunday,
}

impl DayOfWeek {
    /// The numeric code of the day, Sunday = 0 through Saturday = 6.
    pub open spec fn spec_day_number(self) -> int {
        match self {
            DayOfWeek::Sunday => 0,
            DayOfWeek::Monday => 1,
            DayOfWeek::Tuesday => 2,
            DayOfWeek::Wednesday => 3,
            DayOfWeek::Thursday => 4,
            DayOfWeek::Friday => 5,
            DayOfWeek::Saturday => 6,
        }
    }

    /// The day that carries the numeric code `n`, for `n` in 0 through 6.
    pub open spec fn spec_from_day_number(n: int) -> DayOfWeek
        recommends
            0 <= n <= 6,
    {
        if n == 0 {
            DayOfWeek::Sunday
        } else if n == 1 {
            DayOfWeek::Monday
        } else if n == 2 {
            DayOfWeek::Tuesday
        } else if n == 3 {
            DayOfWeek::Wednesday
        } else if n == 4 {
            DayOfWeek::Thursday
        } else if n == 5 {
            DayOfWeek::Friday
        } else {
            DayOfWeek::Saturday
        }
    }

    pub fn as_day_number(&self) -> (n: isize)
        ensures
            n == self.spec_day_number(),
            0 <= n <= 6,
    {
        match self {
            DayOfWeek::Sunday => 0,
            DayOfWeek::Monday => 1,
            DayOfWeek::Tuesday => 2,
            DayOfWeek::Wednesday => 3,
            DayOfWeek::Thursday => 4,
            DayOfWeek::Friday => 5,
            DayOfWeek::Saturday => 6,
        }
    }

    pub fn from_day_number(day_number: isize) -> (r: Option<DayOfWeek>)
        ensures
            0 <= day_number <= 6 ==> r == Some(DayOfWeek::spec_from_day_number(day_number as int)),
            !(0 <= day_number <= 6) ==> r is None,
    {
        match day_number {
            0 => Some(DayOfWeek::Sunday),
            1 => Some(DayOfWeek::Monday),
            2 => Some(DayOfWeek::Tuesday),
            3 => Some(DayOfWeek::Wednesday),
            4 => Some(DayOfWeek::Thursday),
            5 => Some(DayOfWeek::Friday),
            6 => Some(DayOfWeek::Saturday),
            _ => None,
        }
    }

    /// The English name of the day.
    pub fn name(&self) -> (r: &'static str)
        ensures
            self is Sunday ==> r@ == "Sunday"@,
            self is Monday ==> r@ == "Monday"@,
            self is Tuesday ==> r@ == "Tuesday"@,
            self is Wednesday ==> r@ == "Wednesday"@,
            self is Thursday ==> r@ == "Thursday"@,
            self is Friday ==> r@ == "Friday"@,
            self is Saturday ==> r@ == "Saturday"@,
    {
        match self {
            DayOfWeek::Sunday => "Sunday",
            DayOfWeek::Monday => "Monday",
            DayOfWeek::Tuesday => "Tuesday",
            DayOfWeek::Wednesday => "Wednesday",
            DayOfWeek::Thursday => "Thursday",
            DayOfWeek::Friday => "Friday",
            DayOfWeek::Saturday => "Saturday",
        }
    }
}

/// A month of the year, with numeric codes January = 1 through December = 12.
#[derive(Clone, Copy, Debug, PartialEq, Eq, Structural)]
pub enum MonthOfYear {
    January,
    February,
    March,
    April,
    May,
    June,
    July,
    August,
    September,
    October,
    November,
    December,
}

impl MonthOfYear {
    /// The numeric code of the month, January = 1 through December = 12.
    pub open spec fn spec_month_number(self) -> int {
        match self {
            MonthOfYear::January => 1,
            MonthOfYear::February => 2,
            MonthOfYear::March => 3,
            MonthOfYear::April => 4,
            MonthOfYear::May => 5,
            MonthOfYear::June => 6,
            MonthOfYear::July => 7,
            MonthOfYear::August => 8,
            MonthOfYear::September => 9,
            MonthOfYear::October => 10,
            MonthOfYear::November => 11,
            MonthOfYear::December => 12,
        }
    }

    /// The month that carries the numeric code `n`, for `n` in 1 through 12.
    pub open spec fn spec_from_month_number(n: int) -> MonthOfYear
        recommends
            1 <= n <= 12,
    {
        if n == 1 {
            MonthOfYear::January
        } else if n == 2 {
            MonthOfYear::February
        } else if n == 3 {
            MonthOfYear::March
        } else if n == 4 {
            MonthOfYear::April
        } else if n == 5 {
            MonthOfYear::May
        } else if n == 6 {
            MonthOfYear::June
        } else if n == 7 {
            MonthOfYear::July
        } else if n == 8 {
            MonthOfYear::August
        } else if n == 9 {
            MonthOfYear::September
        } else if n == 10 {
            MonthOfYear::October
        } else if n == 11 {
            MonthOfYear::November
        } else {
            MonthOfYear::December
        }
    }

    pub fn as_month_number(&self) -> (n: isize)
        ensures
            n == self.spec_month_number(),
            1 <= n <= 12,
    {
        match self {
            MonthOfYear::January => 1,
            MonthOfYear::February => 2,
            MonthOfYear::March => 3,
            MonthOfYear::April => 4,
            MonthOfYear::May => 5,
            MonthOfYear::June => 6,
            MonthOfYear::July => 7,
            MonthOfYear::August => 8,
            MonthOfYear::September => 9,
            MonthOfYear::October => 10,
            MonthOfYear::November => 11,
            MonthOfYear::December => 12,
        }
    }

    pub fn from_month_number(month_number: isize) -> (r: Option<MonthOfYear>)
        ensures
            1 <= month_number <= 12 ==> r == Some(
                MonthOfYear::spec_from_month_number(month_number as int),
            ),
            !(1 <= month_number <= 12) ==> r is None,
    {
        match month_number {
            1 => Some(MonthOfYear::January),
            2 => Some(MonthOfYear::February),
            3 => Some(MonthOfYear::March),
            4 => Some(MonthOfYear::April),
            5 => Some(MonthOfYear::May),
            6 => Some(MonthOfYear::June),
            7 => Some(MonthOfYear::July),
            8 => Some(MonthOfYear::August),
            9 => Some(MonthOfYear::September),
            10 => Some(MonthOfYear::October),
            11 => Some(MonthOfYear::November),
            12 => Some(MonthOfYear::December),
            _ => None,
        }
    }

    /// The anchor date of the month: the day of the month that is guaranteed
    /// to fall on the year's doomsday weekday. January's and February's
    /// anchors depend on whether the year is a leap year.
    pub open spec fn spec_anchor_date(self, is_leap_year: bool) -> int {
        match self {
            MonthOfYear::January => if is_leap_year { 4 } else { 3 },
            MonthOfYear::February => if is_leap_year { 29 } else { 28 },
            MonthOfYear::March => 7,
            MonthOfYear::April => 4,
            MonthOfYear::May => 9,
            MonthOfYear::June => 6,
            MonthOfYear::July => 11,
            MonthOfYear::August => 8,
            MonthOfYear::September => 5,
            MonthOfYear::October => 10,
            MonthOfYear::November => 7,
            MonthOfYear::December => 12,
        }
    }

    pub fn anchor_date(&self, is_leap_year: bool) -> (d: isize)
        ensures
            d == self.spec_anchor_date(is_leap_year),
            1 <= d <= 29,
    {
        match self {
            MonthOfYear::January => if is_leap_year { 4 } else { 3 },
            MonthOfYear::February => if is_leap_year { 29 } else { 28 },
            MonthOfYear::March => 7,
            MonthOfYear::April => 4,
            MonthOfYear::May => 9,
            MonthOfYear::June => 6,
            MonthOfYear::July => 11,
            MonthOfYear::August => 8,
            MonthOfYear::September => 5,
            MonthOfYear::October => 10,
            MonthOfYear::November => 7,
            MonthOfYear::December => 12,
        }
    }
}

} // verus!
