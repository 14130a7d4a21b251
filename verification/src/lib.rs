//! Weekday binning of timestamped records.
//!
//! The library parses timestamps of the fixed form `YYYY-MM-DDTHH:MM:SSZ`,
//! computes the day of week of a date with the Doomsday algorithm (verified
//! against a day-count model of the Gregorian calendar for the years 1900
//! through 2199), and routes records into one bucket per weekday, optionally
//! sub-bucketed by time-of-day bins.

pub mod binner;
pub mod calendar;
pub mod datetime;
pub mod errors;
pub mod gregorian;
pub mod parse;
pub mod timebin;

pub use binner::WeeklyBuckets;
pub use calendar::DayOfWeek;
pub use calendar::MonthOfYear;
pub use datetime::DateTime;
pub use errors::CoreError;
pub use timebin::TimeBin;
