//! The timestamp parser: extracts a `DateTime` from the first occurrence of
//! the fixed pattern `YYYY-MM-DDTHH:MM:SSZ` in a text fragment, and formats
//! a `DateTime` back into that pattern.
//!
//! The pattern is four year digits, then two digits for the month, day,
//! hour, minute and second, with the literal separators `-`, `-`, `T`, `:`,
//! `:` and a trailing `Z`. No range validation happens here: a month of 13
//! parses and is rejected later by the weekday calculator.

use vstd::prelude::*;

use crate::datetime::DateTime;
use vstd::string::StrSliceExecFns;

verus! {

/// The number of characters of the timestamp pattern.
pub const PATTERN_LEN: usize = 20;

/// The character is a decimal digit.
pub open spec fn is_digit(c: char) -> bool {
    48 <= c as u32 <= 57
}

/// The numeric value of a decimal digit character.
pub open spec fn digit_val(c: char) -> int {
    c as u32 - 48
}

/// The timestamp pattern matches `s` at position `i`.
pub open spec fn matches_at(s: Seq<char>, i: int) -> bool {
    &&& 0 <= i
    &&& i + PATTERN_LEN <= s.len()
    &&& is_digit(s[i])
    &&& is_digit(s[i + 1])
    &&& is_digit(s[i + 2])
    &&& is_digit(s[i + 3])
    &&& s[i + 4] == '-'
    &&& is_digit(s[i + 5])
    &&& is_digit(s[i + 6])
    &&& s[i + 7] == '-'
    &&& is_digit(s[i + 8])
    &&& is_digit(s[i + 9])
    &&& s[i + 10] == 'T'
    &&& is_digit(s[i + 11])
    &&& is_digit(s[i + 12])
    &&& s[i + 13] == ':'
    &&& is_digit(s[i + 14])
    &&& is_digit(s[i + 15])
    &&& s[i + 16] == ':'
    &&& is_digit(s[i + 17])
    &&& is_digit(s[i + 18])
    &&& s[i + 19] == 'Z'
}

/// The leftmost position at or after `i` where the pattern matches, if any.
pub open spec fn first_match_from(s: Seq<char>, i: int) -> Option<int>
    decreases s.len() - i,
{
    if i + PATTERN_LEN > s.len() {
        None
    } else if matches_at(s, i) {
        Some(i)
    } else {
        first_match_from(s, i + 1)
    }
}

/// The value of the two-digit group starting at position `i`.
pub open spec fn num2(s: Seq<char>, i: int) -> int {
    10 * digit_val(s[i]) + digit_val(s[i + 1])
}

/// The value of the four-digit group starting at position `i`.
pub open spec fn num4(s: Seq<char>, i: int) -> int {
    1000 * digit_val(s[i]) + 100 * digit_val(s[i + 1]) + 10 * digit_val(s[i + 2]) + digit_val(
        s[i + 3],
    )
}

/// The date/time value captured by a pattern match at position `i`.
pub open spec fn datetime_at(s: Seq<char>, i: int) -> DateTime {
    DateTime {
        year: num4(s, i) as u16,
        month: num2(s, i + 5) as u8,
        day: num2(s, i + 8) as u8,
        hour: num2(s, i + 11) as u8,
        minute: num2(s, i + 14) as u8,
        second: num2(s, i + 17) as u8,
    }
}

/// What parsing a fragment yields: the capture of the leftmost pattern
/// match, or nothing when the pattern occurs nowhere in the fragment.
pub open spec fn spec_parse_date(s: Seq<char>) -> Option<DateTime> {
    match first_match_from(s, 0) {
        None => None,
        Some(i) => Some(datetime_at(s, i)),
    }
}

/// A search from `i` succeeds exactly when some position at or after `i`
/// matches, and what it finds is the leftmost such position.
proof fn lemma_first_match_from(s: Seq<char>, i: int)
    requires
        0 <= i,
    ensures
        (first_match_from(s, i) is Some) <==> exists|j: int| i <= j && matches_at(s, j),
        first_match_from(s, i) matches Some(m) ==> i <= m && matches_at(s, m) && forall|j: int|
            i <= j < m ==> !matches_at(s, j),
    decreases s.len() - i,
{
    if i + PATTERN_LEN > s.len() {
        assert(forall|j: int| i <= j ==> !matches_at(s, j));
    } else if matches_at(s, i) {
    } else {
        lemma_first_match_from(s, i + 1);
    }
}

/// The character is a decimal digit.
fn is_digit_char(c: char) -> (b: bool)
    ensures
        b == is_digit(c),
{
    let u = c as u32;
    48 <= u && u <= 57
}

/// The numeric value of a decimal digit character.
fn digit_value(c: char) -> (v: u8)
    requires
        is_digit(c),
    ensures
        v as int == digit_val(c),
{
    ((c as u32) - 48) as u8
}

/// Whether the pattern matches the fragment at position `i`.
fn check_at(s: &str, i: usize) -> (b: bool)
    requires
        i + PATTERN_LEN <= s@.len() <= usize::MAX,
    ensures
        b == matches_at(s@, i as int),
{
    is_digit_char(s.get_char(i)) && is_digit_char(s.get_char(i + 1)) && is_digit_char(
        s.get_char(i + 2),
    ) && is_digit_char(s.get_char(i + 3)) && s.get_char(i + 4) == '-' && is_digit_char(
        s.get_char(i + 5),
    ) && is_digit_char(s.get_char(i + 6)) && s.get_char(i + 7) == '-' && is_digit_char(
        s.get_char(i + 8),
    ) && is_digit_char(s.get_char(i + 9)) && s.get_char(i + 10) == 'T' && is_digit_char(
        s.get_char(i + 11),
    ) && is_digit_char(s.get_char(i + 12)) && s.get_char(i + 13) == ':' && is_digit_char(
        s.get_char(i + 14),
    ) && is_digit_char(s.get_char(i + 15)) && s.get_char(i + 16) == ':' && is_digit_char(
        s.get_char(i + 17),
    ) && is_digit_char(s.get_char(i + 18)) && s.get_char(i + 19) == 'Z'
}

/// The value of the two-digit group at position `i`.
fn two_digit_value(s: &str, i: usize) -> (v: u8)
    requires
        i + 2 <= s@.len() <= usize::MAX,
        is_digit(s@[i as int]),
        is_digit(s@[i as int + 1]),
    ensures
        v as int == num2(s@, i as int),
{
    let a = digit_value(s.get_char(i));
    let b = digit_value(s.get_char(i + 1));
    10 * a + b
}

/// The value of the four-digit group at position `i`.
fn four_digit_value(s: &str, i: usize) -> (v: u16)
    requires
        i + 4 <= s@.len() <= usize::MAX,
        is_digit(s@[i as int]),
        is_digit(s@[i as int + 1]),
        is_digit(s@[i as int + 2]),
        is_digit(s@[i as int + 3]),
    ensures
        v as int == num4(s@, i as int),
{
    let a = digit_value(s.get_char(i)) as u16;
    let b = digit_value(s.get_char(i + 1)) as u16;
    let c = digit_value(s.get_char(i + 2)) as u16;
    let d = digit_value(s.get_char(i + 3)) as u16;
    1000 * a + 100 * b + 10 * c + d
}

/// Parse the leftmost timestamp of the fragment into a `DateTime`; `None`
/// when the pattern occurs nowhere in the fragment. Leading zeros in every
/// digit group parse as plain numbers.
pub fn parse_date(date_string: &str) -> (r: Option<DateTime>)
    ensures
        r == spec_parse_date(date_string@),
        (r is Some) <==> exists|j: int| matches_at(date_string@, j),
{
    proof {
        lemma_first_match_from(date_string@, 0);
    }
    let n = date_string.unicode_len();
    if n < PATTERN_LEN {
        return None;
    }
    let last = n - PATTERN_LEN;
    let mut i: usize = 0;
    loop
        invariant
            n == date_string@.len(),
            n >= PATTERN_LEN,
            last == n - PATTERN_LEN,
            i <= last + 1,
            first_match_from(date_string@, 0) == first_match_from(date_string@, i as int),
        decreases last + 1 - i,
    {
        if i > last {
            proof {
                lemma_first_match_from(date_string@, 0);
            }
            return None;
        }
        if check_at(date_string, i) {
            let year = four_digit_value(date_string, i);
            let month = two_digit_value(date_string, i + 5);
            let day = two_digit_value(date_string, i + 8);
            let hour = two_digit_value(date_string, i + 11);
            let minute = two_digit_value(date_string, i + 14);
            let second = two_digit_value(date_string, i + 17);
            proof {
                lemma_first_match_from(date_string@, 0);
            }
            return Some(
                DateTime {
                    year,
                    month: month,
                    day: day,
                    hour: hour,
                    minute: minute,
                    second: second,
                },
            );
        }
        i = i + 1;
    }
}

/// The decimal digit character of a value between 0 and 9.
pub open spec fn digit_char(d: int) -> char {
    if d == 0 {
        '0'
    } else if d == 1 {
        '1'
    } else if d == 2 {
        '2'
    } else if d == 3 {
        '3'
    } else if d == 4 {
        '4'
    } else if d == 5 {
        '5'
    } else if d == 6 {
        '6'
    } else if d == 7 {
        '7'
    } else if d == 8 {
        '8'
    } else {
        '9'
    }
}

/// The two zero-padded decimal digits of a value between 0 and 99.
pub open spec fn spec_format_two(v: int) -> Seq<char> {
    seq![digit_char(v / 10), digit_char(v % 10)]
}

/// The timestamp pattern text of a date/time value with zero-padded fields.
pub open spec fn spec_format_timestamp(dt: DateTime) -> Seq<char> {
    seq![
        digit_char(dt.year as int / 1000),
        digit_char(dt.year as int / 100 % 10),
        digit_char(dt.year as int / 10 % 10),
        digit_char(dt.year as int % 10),
        '-',
        digit_char(dt.month as int / 10),
        digit_char(dt.month as int % 10),
        '-',
        digit_char(dt.day as int / 10),
        digit_char(dt.day as int % 10),
        'T',
        digit_char(dt.hour as int / 10),
        digit_char(dt.hour as int % 10),
        ':',
        digit_char(dt.minute as int / 10),
        digit_char(dt.minute as int % 10),
        ':',
        digit_char(dt.second as int / 10),
        digit_char(dt.second as int % 10),
        'Z',
    ]
}

/// The one-character text of a decimal digit.
fn digit_str(d: u8) -> (r: &'static str)
    requires
        d <= 9,
    ensures
        r@ == seq![digit_char(d as int)],
{
    proof {
        reveal_strlit("0");
        reveal_strlit("1");
        reveal_strlit("2");
        reveal_strlit("3");
        reveal_strlit("4");
        reveal_strlit("5");
        reveal_strlit("6");
        reveal_strlit("7");
        reveal_strlit("8");
        reveal_strlit("9");
    }
    let r = match d {
        0 => "0",
        1 => "1",
        2 => "2",
        3 => "3",
        4 => "4",
        5 => "5",
        6 => "6",
        7 => "7",
        8 => "8",
        _ => "9",
    };
    proof {
        assert(r@ =~= seq![digit_char(d as int)]);
    }
    r
}

/// Append the two zero-padded digits of a value between 0 and 99.
fn append_two(out: &mut String, v: u8)
    requires
        v <= 99,
    ensures
        final(out)@ == old(out)@ + spec_format_two(v as int),
{
    out.append(digit_str(v / 10));
    out.append(digit_str(v % 10));
    proof {
        assert(out@ =~= old(out)@ + spec_format_two(v as int));
    }
}

/// Format a date/time value as the timestamp pattern, with every field
/// zero-padded to its digit-group width.
pub fn format_timestamp(dt: &DateTime) -> (r: String)
    requires
        dt.year <= 9999,
        dt.month <= 99,
        dt.day <= 99,
        dt.hour <= 99,
        dt.minute <= 99,
        dt.second <= 99,
    ensures
        r@ == spec_format_timestamp(*dt),
{
    let mut out = String::new();
    out.append(digit_str((dt.year / 1000) as u8));
    out.append(digit_str((dt.year / 100 % 10) as u8));
    out.append(digit_str((dt.year / 10 % 10) as u8));
    out.append(digit_str((dt.year % 10) as u8));
    out.append("-");
    append_two(&mut out, dt.month);
    out.append("-");
    append_two(&mut out, dt.day);
    out.append("T");
    append_two(&mut out, dt.hour);
    out.append(":");
    append_two(&mut out, dt.minute);
    out.append(":");
    append_two(&mut out, dt.second);
    out.append("Z");
    proof {
        reveal_strlit("-");
        reveal_strlit("T");
        reveal_strlit(":");
        reveal_strlit("Z");
        assert(out@ =~= spec_format_timestamp(*dt));
    }
    out
}

/// The plain decimal digits of a non-negative value, without padding.
pub open spec fn dec_digits(n: int) -> Seq<char>
    decreases n,
{
    if n < 10 {
        seq![digit_char(n)]
    } else {
        dec_digits(n / 10).push(digit_char(n % 10))
    }
}

/// The plain decimal text of a value, without padding.
fn dec_str(n: u16) -> (r: String)
    ensures
        r@ == dec_digits(n as int),
    decreases n,
{
    if n < 10 {
        let mut s = String::new();
        s.append(digit_str(n as u8));
        proof {
            assert(s@ =~= dec_digits(n as int));
        }
        s
    } else {
        let mut s = dec_str(n / 10);
        s.append(digit_str((n % 10) as u8));
        proof {
            assert(s@ =~= dec_digits(n as int));
        }
        s
    }
}

/// The display text of a date/time value: the six fields as plain numbers,
/// the date joined by `-`, the time joined by `:`, a space between.
pub open spec fn spec_display_text(dt: DateTime) -> Seq<char> {
    dec_digits(dt.year as int) + seq!['-'] + dec_digits(dt.month as int) + seq!['-'] + dec_digits(
        dt.day as int,
    ) + seq![' '] + dec_digits(dt.hour as int) + seq![':'] + dec_digits(dt.minute as int)
        + seq![':'] + dec_digits(dt.second as int)
}

impl DateTime {
    /// The display text of this value, fields unpadded, as in
    /// `2023-1-2 8:15:0`.
    pub fn to_display_string(&self) -> (r: String)
        ensures
            r@ == spec_display_text(*self),
    {
        let mut out = dec_str(self.year);
        out.append("-");
        let part = dec_str(self.month as u16);
        out.append(part.as_str());
        out.append("-");
        let part = dec_str(self.day as u16);
        out.append(part.as_str());
        out.append(" ");
        let part = dec_str(self.hour as u16);
        out.append(part.as_str());
        out.append(":");
        let part = dec_str(self.minute as u16);
        out.append(part.as_str());
        out.append(":");
        let part = dec_str(self.second as u16);
        out.append(part.as_str());
        proof {
            reveal_strlit("-");
            reveal_strlit(" ");
            reveal_strlit(":");
            assert(out@ =~= spec_display_text(*self));
        }
        out
    }
}

/// A digit character carries the value it was made from.
proof fn lemma_digit_char_val(d: int)
    requires
        0 <= d <= 9,
    ensures
        is_digit(digit_char(d)),
        digit_val(digit_char(d)) == d,
{
}

/// Splitting a value below 100 into its two decimal digits loses nothing.
proof fn lemma_two_digits(v: int)
    requires
        0 <= v <= 99,
    ensures
        10 * (v / 10) + v % 10 == v,
        0 <= v / 10 <= 9,
        0 <= v % 10 <= 9,
{
    vstd::arithmetic::div_mod::lemma_fundamental_div_mod(v, 10);
    vstd::arithmetic::div_mod::lemma_mod_pos_bound(v, 10);
}

/// Splitting a value below 10000 into its four decimal digits loses nothing.
proof fn lemma_four_digits(v: int)
    requires
        0 <= v <= 9999,
    ensures
        1000 * (v / 1000) + 100 * (v / 100 % 10) + 10 * (v / 10 % 10) + v % 10 == v,
        0 <= v / 1000 <= 9,
        0 <= v / 100 % 10 <= 9,
        0 <= v / 10 % 10 <= 9,
        0 <= v % 10 <= 9,
{
    vstd::arithmetic::div_mod::lemma_fundamental_div_mod(v, 10);
    vstd::arithmetic::div_mod::lemma_mod_pos_bound(v, 10);
    vstd::arithmetic::div_mod::lemma_fundamental_div_mod(v / 10, 10);
    vstd::arithmetic::div_mod::lemma_mod_pos_bound(v / 10, 10);
    vstd::arithmetic::div_mod::lemma_fundamental_div_mod(v / 100, 10);
    vstd::arithmetic::div_mod::lemma_mod_pos_bound(v / 100, 10);
    vstd::arithmetic::div_mod::lemma_div_denominator(v, 10, 10);
    vstd::arithmetic::div_mod::lemma_div_denominator(v, 100, 10);
}

/// Round trip: formatting a date/time value with zero-padded fields and
/// parsing the result reproduces the original fields exactly.
pub proof fn lemma_format_parse_roundtrip(dt: DateTime)
    requires
        dt.year <= 9999,
        dt.month <= 99,
        dt.day <= 99,
        dt.hour <= 99,
        dt.minute <= 99,
        dt.second <= 99,
    ensures
        spec_parse_date(spec_format_timestamp(dt)) == Some(dt),
{
    let s = spec_format_timestamp(dt);
    lemma_four_digits(dt.year as int);
    lemma_two_digits(dt.month as int);
    lemma_two_digits(dt.day as int);
    lemma_two_digits(dt.hour as int);
    lemma_two_digits(dt.minute as int);
    lemma_two_digits(dt.second as int);
    lemma_digit_char_val(dt.year as int / 1000);
    lemma_digit_char_val(dt.year as int / 100 % 10);
    lemma_digit_char_val(dt.year as int / 10 % 10);
    lemma_digit_char_val(dt.year as int % 10);
    lemma_digit_char_val(dt.month as int / 10);
    lemma_digit_char_val(dt.month as int % 10);
    lemma_digit_char_val(dt.day as int / 10);
    lemma_digit_char_val(dt.day as int % 10);
    lemma_digit_char_val(dt.hour as int / 10);
    lemma_digit_char_val(dt.hour as int % 10);
    lemma_digit_char_val(dt.minute as int / 10);
    lemma_digit_char_val(dt.minute as int % 10);
    lemma_digit_char_val(dt.second as int / 10);
    lemma_digit_char_val(dt.second as int % 10);
    assert(matches_at(s, 0));
    assert(first_match_from(s, 0) == Some(0int));
    assert(num4(s, 0) == dt.year as int);
    assert(num2(s, 5) == dt.month as int);
    assert(num2(s, 8) == dt.day as int);
    assert(num2(s, 11) == dt.hour as int);
    assert(num2(s, 14) == dt.minute as int);
    assert(num2(s, 17) == dt.second as int);
    assert(datetime_at(s, 0) == dt);
}

} // verus!
