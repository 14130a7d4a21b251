//! The error taxonomy of the library. Every per-record failure is one of
//! these; none aborts the processing of later records.

use vstd::prelude::*;

verus! {

/// Why a record or a request was rejected.
#[derive(Clone, Copy, Debug, PartialEq, Eq, Structural)]
pub enum CoreError {
    /// The line had no delimiter, or its timestamp did not match the pattern.
    ParseFailure,
    /// The year's century is not 1900, 2000 or 2100.
    UnsupportedCentury,
    /// The month code lies outside 1 through 12.
    InvalidMonth,
    /// The weekday computation produced an out-of-range code. Unreachable
    /// with correct modular arithmetic; kept so that the taxonomy is closed.
    InvalidDayCode,
    /// A requested range of time bins would spill past midnight.
    RangeViolation,
}

impl CoreError {
    /// A short description of the error.
    pub fn describe(&self) -> (r: &'static str)
        ensures
            self is ParseFailure ==> r@ == "line or timestamp did not match the expected pattern"@,
            self is UnsupportedCentury ==> r@ == "year outside of handled centuries"@,
            self is InvalidMonth ==> r@ == "month number out of range"@,
            self is InvalidDayCode ==> r@ == "weekday code out of range"@,
            self is RangeViolation ==> r@ == "requested range spans more than a whole day"@,
    {
        match self {
            CoreError::ParseFailure => "line or timestamp did not match the expected pattern",
            CoreError::UnsupportedCentury => "year outside of handled centuries",
            CoreError::InvalidMonth => "month number out of range",
            CoreError::InvalidDayCode => "weekday code out of range",
            CoreError::RangeViolation => "requested range spans more than a whole day",
        }
    }
}

} // verus!
