//! A day-count model of the Gregorian calendar, and the proof that the
//! Doomsday algorithm agrees with it on every date of the supported years
//! 1900 through 2199.
//!
//! The model counts days from Monday, 1900-01-01. The day-of-week code of a
//! date is the count of days from that epoch to the date, plus one (the
//! epoch's own Monday code), reduced modulo 7.

use vstd::prelude::*;
use vstd::arithmetic::div_mod::lemma_add_mod_noop;
use vstd::arithmetic::div_mod::lemma_fundamental_div_mod;
use vstd::arithmetic::div_mod::lemma_fundamental_div_mod_converse;
use vstd::arithmetic::div_mod::lemma_mod_multiples_vanish;

use crate::calendar::MonthOfYear;

verus! {

/// The Gregorian leap-year rule: divisible by 4 and not by 100, or
/// divisible by 400.
pub open spec fn spec_is_leap_year(year: int) -> bool {
    year % 400 == 0 || (year % 4 == 0 && year % 100 != 0)
}

/// One extra day in a leap year, none otherwise.
pub open spec fn leap_day(year: int) -> int {
    if spec_is_leap_year(year) {
        1
    } else {
        0
    }
}

/// Days from 1900-01-01 to the first day of `year` (zero at and before 1900).
pub open spec fn days_before_year(year: int) -> int
    decreases year,
{
    if year <= 1900 {
        0
    } else {
        days_before_year(year - 1) + 365 + leap_day(year - 1)
    }
}

/// Days from the first of January to the first of month `month` of a year
/// with the given leap status, for `month` in 1 through 12.
pub open spec fn days_before_month(month: int, leap: bool) -> int {
    let feb = if leap {
        29int
    } else {
        28int
    };
    if month <= 1 {
        0
    } else if month == 2 {
        31
    } else if month == 3 {
        31 + feb
    } else if month == 4 {
        62 + feb
    } else if month == 5 {
        92 + feb
    } else if month == 6 {
        123 + feb
    } else if month == 7 {
        153 + feb
    } else if month == 8 {
        184 + feb
    } else if month == 9 {
        215 + feb
    } else if month == 10 {
        245 + feb
    } else if month == 11 {
        276 + feb
    } else {
        306 + feb
    }
}

/// The day-of-week code (Sunday = 0 through Saturday = 6) of the given date,
/// by counting days from the epoch Monday, 1900-01-01. The formula is linear
/// in `day`, so it extends to day numbers outside the month's true range.
pub open spec fn day_of_week_code(year: int, month: int, day: int) -> int {
    (days_before_year(year) + days_before_month(month, spec_is_leap_year(year)) + day) % 7
}

/// The first year of the century that `year` belongs to.
pub open spec fn century_base(year: int) -> int {
    year - year % 100
}

/// A year is supported when its century base is 1900, 2000 or 2100.
pub open spec fn supported_year(year: int) -> bool {
    1900 <= year < 2200
}

/// The weekday code of the doomsday of the first year of a century:
/// Wednesday for 1900, Tuesday for 2000, Sunday for 2100.
pub open spec fn century_anchor_code(base: int) -> int {
    if base == 1900 {
        3
    } else if base == 2000 {
        2
    } else {
        0
    }
}

/// The weekday code that every anchor date of `year` falls on.
pub open spec fn doomsday_code(year: int) -> int {
    (century_anchor_code(century_base(year)) + year % 100 + (year % 100) / 4) % 7
}

/// A year is supported exactly when its century base is one of the three
/// anchored centuries.
pub proof fn lemma_century_base_cases(year: int)
    requires
        0 <= year,
    ensures
        supported_year(year) <==> (century_base(year) == 1900 || century_base(year) == 2000
            || century_base(year) == 2100),
        supported_year(year) ==> year % 100 == year - century_base(year),
{
    lemma_fundamental_div_mod(year, 100);
    if 1900 <= year < 2000 {
        lemma_fundamental_div_mod_converse(year, 100, 19, year - 1900);
    } else if 2000 <= year < 2100 {
        lemma_fundamental_div_mod_converse(year, 100, 20, year - 2000);
    } else if 2100 <= year < 2200 {
        lemma_fundamental_div_mod_converse(year, 100, 21, year - 2100);
    } else {
        vstd::arithmetic::div_mod::lemma_mod_pos_bound(year, 100);
    }
}

/// The doomsday code of each supported year agrees with the day-count model:
/// it is congruent modulo 7 to the day count of a fixed reference offset
/// (94 days, plus the leap day) into the year.
proof fn lemma_century_walk(base: int, yy: int)
    requires
        base == 1900 || base == 2000 || base == 2100,
        0 <= yy < 100,
    ensures
        (century_anchor_code(base) + yy + yy / 4) % 7 == (days_before_year(base + yy) + 94
            + leap_day(base + yy)) % 7,
    decreases base + yy,
{
    if yy == 0 {
        if base == 1900 {
            assert((century_anchor_code(1900) + 0 + 0int / 4) % 7 == 3);
            assert((days_before_year(1900) + 94 + leap_day(1900)) % 7 == 3);
        } else if base == 2000 {
            lemma_century_walk(1900, 99);
            lemma_step(1900, 2000, 99, 0);
        } else {
            lemma_century_walk(2000, 99);
            lemma_step(2000, 2100, 99, 0);
        }
    } else {
        lemma_century_walk(base, yy - 1);
        lemma_step(base, base, yy - 1, yy);
    }
}

/// One step of the walk: moving from the last handled year to the next one
/// preserves the congruence, whether or not a century boundary is crossed.
proof fn lemma_step(prev_base: int, base: int, prev_yy: int, yy: int)
    requires
        prev_base == 1900 || prev_base == 2000 || prev_base == 2100,
        base == 1900 || base == 2000 || base == 2100,
        prev_base + prev_yy + 1 == base + yy,
        0 <= prev_yy < 100,
        0 <= yy < 100,
        (century_anchor_code(prev_base) + prev_yy + prev_yy / 4) % 7 == (days_before_year(
            prev_base + prev_yy,
        ) + 94 + leap_day(prev_base + prev_yy)) % 7,
    ensures
        (century_anchor_code(base) + yy + yy / 4) % 7 == (days_before_year(base + yy) + 94
            + leap_day(base + yy)) % 7,
{
    let py = prev_base + prev_yy;
    let year = base + yy;
    lemma_leap_of_offset(prev_base, prev_yy);
    lemma_leap_of_offset(base, yy);
    lemma_quarter_step(prev_yy);
    lemma_quarter_step(yy);
    assert(days_before_year(year) == days_before_year(py) + 365 + leap_day(py));
    let prev_lhs = century_anchor_code(prev_base) + prev_yy + prev_yy / 4;
    let prev_rhs = days_before_year(py) + 94 + leap_day(py);
    let lhs = century_anchor_code(base) + yy + yy / 4;
    let rhs = days_before_year(year) + 94 + leap_day(year);
    // Both sides grow by the same amount modulo 7: the left by the explicit
    // step `lhs - prev_lhs`, the right by 365 plus the new year's leap day.
    let growth = rhs - prev_rhs - 7 * 52;
    assert(rhs == prev_rhs + 7 * 52 + growth);
    lemma_mod_multiples_vanish(52, prev_rhs + growth, 7);
    assert(rhs % 7 == (prev_rhs + growth) % 7);
    if prev_base == base {
        assert(lhs == prev_lhs + growth);
    } else if base == 2000 {
        // 1999 to 2000: the left side falls from 3 + 99 + 24 to 2, a drop
        // of 124; growth is 2 (2000 is a leap year), and 124 + 2 == 18 * 7.
        assert(lhs == prev_lhs + growth - 7 * 18);
        lemma_mod_multiples_vanish(-18, prev_lhs + growth, 7);
        assert(lhs % 7 == (prev_lhs + growth) % 7);
    } else {
        // 2099 to 2100: the left side falls from 2 + 99 + 24 to 0, a drop
        // of 125; growth is 1 (2100 is not a leap year), and 125 + 1 == 18 * 7.
        assert(lhs == prev_lhs + growth - 7 * 18);
        lemma_mod_multiples_vanish(-18, prev_lhs + growth, 7);
        assert(lhs % 7 == (prev_lhs + growth) % 7);
    }
    lemma_add_mod_noop(prev_lhs, growth, 7);
    lemma_add_mod_noop(prev_rhs, growth, 7);
}

/// Within a supported century, the year `base + yy` is a leap year exactly
/// when `yy` is a positive multiple of 4, or `yy` is zero and the base year
/// itself is a leap year (only 2000 is).
proof fn lemma_leap_of_offset(base: int, yy: int)
    requires
        base == 1900 || base == 2000 || base == 2100,
        0 <= yy < 100,
    ensures
        yy > 0 ==> (spec_is_leap_year(base + yy) <==> yy % 4 == 0),
        yy == 0 ==> (spec_is_leap_year(base + yy) <==> base == 2000),
{
    let year = base + yy;
    lemma_fundamental_div_mod_converse(year, 100, base / 100, yy);
    assert(year % 100 == yy);
    lemma_fundamental_div_mod(yy, 4);
    vstd::arithmetic::div_mod::lemma_mod_pos_bound(yy, 4);
    lemma_fundamental_div_mod_converse(year, 4, base / 4 + yy / 4, yy % 4);
    assert(year % 4 == yy % 4);
    if yy == 0 {
        if base == 2000 {
            assert(2000int % 400 == 0);
        } else if base == 1900 {
            assert(1900int % 400 == 300);
        } else {
            assert(2100int % 400 == 100);
        }
    } else {
        // A year divisible by 400 is divisible by 100, and year % 100 == yy != 0.
        if year % 400 == 0 {
            lemma_fundamental_div_mod(year, 400);
            lemma_fundamental_div_mod_converse(year, 100, 4 * (year / 400), 0);
            assert(false);
        }
    }
}

/// Stepping `yy` up by one raises `yy / 4` exactly when the new value is a
/// multiple of 4.
proof fn lemma_quarter_step(yy: int)
    requires
        0 <= yy < 100,
    ensures
        yy > 0 && yy % 4 == 0 ==> yy / 4 == (yy - 1) / 4 + 1,
        yy > 0 && yy % 4 != 0 ==> yy / 4 == (yy - 1) / 4 && yy % 4 == (yy - 1) % 4 + 1,
{
    if yy > 0 {
        lemma_fundamental_div_mod(yy - 1, 4);
        vstd::arithmetic::div_mod::lemma_mod_pos_bound(yy - 1, 4);
        let k = (yy - 1) / 4;
        let r = (yy - 1) % 4;
        if r == 3 {
            lemma_fundamental_div_mod_converse(yy, 4, k + 1, 0);
        } else {
            lemma_fundamental_div_mod_converse(yy, 4, k, r + 1);
        }
    }
}

/// The doomsday code of a supported year is congruent to the day count of
/// the year's doomsday reference offset.
pub proof fn lemma_doomsday_code_correct(year: int)
    requires
        supported_year(year),
    ensures
        doomsday_code(year) == (days_before_year(year) + 94 + leap_day(year)) % 7,
{
    lemma_century_base_cases(year);
    lemma_century_walk(century_base(year), year - century_base(year));
}

/// The quotient-remainder form of the doomsday terms used by the algorithm
/// (`yy / 12`, `yy % 12`, and the quarter of the remainder) is congruent
/// modulo 7 to the direct form `yy + yy / 4`.
pub proof fn lemma_doomsday_terms(yy: int)
    requires
        0 <= yy < 100,
    ensures
        (yy / 12 + yy % 12 + (yy % 12) / 4) % 7 == (yy + yy / 4) % 7,
{
    lemma_fundamental_div_mod(yy, 12);
    vstd::arithmetic::div_mod::lemma_mod_pos_bound(yy, 12);
    let q = yy / 12;
    let r = yy % 12;
    lemma_fundamental_div_mod(r, 4);
    vstd::arithmetic::div_mod::lemma_mod_pos_bound(r, 4);
    let s = r / 4;
    // yy == 4 * (3q + s) + r % 4, so yy / 4 == 3q + s.
    lemma_fundamental_div_mod_converse(yy, 4, 3 * q + s, r % 4);
    // yy + yy / 4 == 15q + r + s == 7 * 2q + (q + r + s).
    lemma_mod_multiples_vanish(2 * q, q + r + s, 7);
}

/// Every anchor date of a month falls a whole number of weeks after the
/// year's doomsday reference offset: its day count within the year is
/// congruent modulo 7 to 94 plus the leap day.
pub proof fn lemma_month_anchor(month: MonthOfYear, leap: bool)
    ensures
        (days_before_month(month.spec_month_number(), leap) + month.spec_anchor_date(leap)) % 7 == (
        94 + if leap {
            1int
        } else {
            0int
        }) % 7,
{
}

/// The closed-form Doomsday computation agrees with the day-count model for
/// every supported year, every month, and every day number.
pub proof fn lemma_weekday_formula(year: int, month: MonthOfYear, day: int)
    requires
        supported_year(year),
    ensures
        (doomsday_code(year) + 35 + day - month.spec_anchor_date(spec_is_leap_year(year))) % 7
            == day_of_week_code(year, month.spec_month_number(), day),
{
    let leap = spec_is_leap_year(year);
    let anchor = month.spec_anchor_date(leap);
    let dbm = days_before_month(month.spec_month_number(), leap);
    let dby = days_before_year(year);
    let lp = leap_day(year);
    lemma_doomsday_code_correct(year);
    lemma_month_anchor(month, leap);
    // Drop the outer modulo of the doomsday code, then the vanished weeks.
    lemma_add_mod_noop(dby + 94 + lp, 35 + day - anchor, 7);
    assert((doomsday_code(year) + 35 + day - anchor) % 7 == ((dby + 94 + lp) % 7 + (35 + day
        - anchor) % 7) % 7) by {
        vstd::arithmetic::div_mod::lemma_mod_twice(dby + 94 + lp, 7);
        lemma_add_mod_noop((dby + 94 + lp) % 7, 35 + day - anchor, 7);
    }
    assert((doomsday_code(year) + 35 + day - anchor) % 7 == (dby + 94 + lp + 35 + day - anchor)
        % 7);
    lemma_mod_multiples_vanish(5, dby + 94 + lp + day - anchor, 7);
    assert((dby + 94 + lp + 35 + day - anchor) % 7 == (dby + (94 + lp) + day - anchor) % 7);
    // Replace the reference offset by the month's anchor terms.
    lemma_add_mod_noop(94 + lp, dby + day - anchor, 7);
    lemma_add_mod_noop(dbm + anchor, dby + day - anchor, 7);
    assert((dby + (94 + lp) + day - anchor) % 7 == (dbm + anchor + dby + day - anchor) % 7);
    assert(dbm + anchor + dby + day - anchor == dby + dbm + day);
}

} // verus!
