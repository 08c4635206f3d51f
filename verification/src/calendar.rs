//! Dates: the day number of a calendar date, and the current day.

use crate::text::{chars_of, split_at_first, split_once};
use vstd::prelude::*;

verus! {

/// A point in time of the system clock.
#[verifier::external_type_specification]
#[verifier::external_body]
pub struct ExSystemTime(std::time::SystemTime);

/// The error of a clock that stands before the point it is measured from.
#[verifier::external_type_specification]
#[verifier::external_body]
pub struct ExSystemTimeError(std::time::SystemTimeError);

/// Reads the system clock. Nothing is claimed of what it shows.
pub assume_specification[ std::time::SystemTime::now ]() -> std::time::SystemTime;

/// The span from the start of 1970 to a point in time; none where the point lies before.
pub uninterp spec fn span_since_epoch(time: std::time::SystemTime) -> Option<std::time::Duration>;

/// The seconds of a span of time, without the fraction.
pub uninterp spec fn whole_seconds(span: std::time::Duration) -> u64;

/// By `Duration::as_secs`: the whole seconds rest on the span alone.
pub assume_specification[ std::time::Duration::as_secs ](span: &std::time::Duration) -> (r: u64)
    ensures
        r == whole_seconds(*span),
;

/// The time since the start of 1970, by `SystemTime::duration_since`: it rests on the
/// point in time alone.
#[verifier::external_body]
fn since_epoch(time: std::time::SystemTime) -> (r: Result<
    std::time::Duration,
    std::time::SystemTimeError,
>)
    ensures
        match r {
            Ok(span) => span_since_epoch(time) == Some(span),
            Err(_) => span_since_epoch(time) is None,
        },
{
    time.duration_since(std::time::UNIX_EPOCH)
}

/// The day of a point in time that is given by the seconds since the start of 1970.
pub open spec fn day_of_second(seconds: u64) -> i64 {
    (seconds / 86_400) as i64
}

/// The day of a point in time that is given by the seconds since the start of 1970.
pub fn days_since_epoch(seconds: u64) -> (r: i64)
    ensures
        r == day_of_second(seconds),
        r == seconds / 86_400,
{
    (seconds / 86_400) as i64
}

/// The number of days from the start of 1970 to a point in time; none where the point lies
/// before.
pub open spec fn day_at(time: std::time::SystemTime) -> Option<i64> {
    match span_since_epoch(time) {
        Some(span) => Some(day_of_second(whole_seconds(span))),
        None => None,
    }
}

/// The number of days from the start of 1970 to a point in time; none where the point lies
/// before.
pub fn days_at(time: std::time::SystemTime) -> (r: Option<i64>)
    ensures
        r == day_at(time),
{
    match since_epoch(time) {
        Ok(span) => Some(days_since_epoch(span.as_secs())),
        Err(_) => None,
    }
}

/// The number of days since the start of 1970, by the system clock; nothing where
/// the clock stands before that. What the clock shows is left open.
pub fn current_utc_days_since_epoch() -> (r: Option<i64>)
    ensures
        exists|now: std::time::SystemTime| #[trigger]
            call_ensures(std::time::SystemTime::now, (), now) && r == day_at(now),
{
    days_at(std::time::SystemTime::now())
}

/// The year of a date when years start in March, so that a leap day ends a year.
pub open spec fn march_year(year: int, month: int) -> int {
    if month <= 2 {
        year - 1
    } else {
        year
    }
}

/// The number of months from March to `month`.
pub open spec fn months_since_march(month: int) -> int {
    if month > 2 {
        month - 3
    } else {
        month + 9
    }
}

/// The highest day that is accepted in a month. February has 29 days, but in the
/// first four years of every four hundred, counted from March, where it has 28.
pub open spec fn last_day(year: int, month: int) -> int {
    if month == 4 || month == 6 || month == 9 || month == 11 {
        30
    } else if month == 2 {
        if march_year(year, month) % 400 >= 4 {
            29
        } else {
            28
        }
    } else {
        31
    }
}

/// The day of the year, counted from the first of March as zero.
pub open spec fn day_of_march_year(month: int, day: int) -> int {
    (153 * months_since_march(month) + 2) / 5 + day - 1
}

/// The number of days from the start of 1970 to a date of the Gregorian calendar.
pub open spec fn day_number(year: int, month: int, day: int) -> int {
    let y = march_year(year, month);
    365 * y + y / 4 - y / 100 + y / 400 + day_of_march_year(month, day) - 719_468
}

/// A day as the signed number that has the same bits.
pub open spec fn signed_day(day: u32) -> int {
    if day <= i32::MAX {
        day as int
    } else {
        day - 0x1_0000_0000
    }
}

/// The day number of a date, where the month and the day are accepted.
pub open spec fn civil_day(year: int, month: int, day: u32) -> Option<int> {
    if 1 <= month <= 12 && day != 0 && signed_day(day) <= last_day(year, month) {
        Some(day_number(year, month, signed_day(day)))
    } else {
        None
    }
}

/// Whether the day number and what leads to it stay within 32 bits.
pub open spec fn civil_fits(year: int, month: int, day: u32) -> bool {
    let y = march_year(year, month);
    1 <= month <= 12 && day != 0 ==> {
        &&& i32::MIN + 399 <= y
        &&& i32::MIN <= day_of_march_year(month, signed_day(day))
        &&& signed_day(day) <= last_day(year, month) ==> {
            &&& i32::MIN <= (y / 400) * 146_097 <= i32::MAX
            &&& day_number(year, month, signed_day(day)) + 719_468 <= i32::MAX
            &&& i32::MIN <= day_number(year, month, signed_day(day))
        }
    }
}

/// Counting by periods of four hundred years is counting by years.
proof fn lemma_eras(y: int)
    ensures
        (y / 400) * 146_097 + (y % 400) * 365 + (y % 400) / 4 - (y % 400) / 100 == 365 * y + y / 4
            - y / 100 + y / 400,
{
    let era = y / 400;
    let yoe = y % 400;
    assert(y == 400 * era + yoe);
    assert(y / 4 == 100 * era + yoe / 4);
    assert(y / 100 == 4 * era + yoe / 100);
}

/// The number of whole periods of four hundred years, rounded down.
fn four_centuries(year: i64) -> (r: i64)
    requires
        -0x1_0000_0000 <= year <= 0x1_0000_0000,
    ensures
        r == year as int / 400,
        0 <= year - 400 * r < 400,
{
    if year >= 0 {
        year / 400
    } else {
        -((399 - year) / 400)
    }
}

/// The number of leap days in the first `years` years of a period.
fn leap_days(years: i64) -> (r: i64)
    requires
        0 <= years < 400,
    ensures
        r == years as int / 4 - years as int / 100,
        r > 0 <==> years >= 4,
{
    years / 4 - years / 100 + years / 400
}

/// The number of days from the start of 1970 to a date; nothing where the month or
/// the day is none.
pub fn days_from_civil(year: i32, month: u32, day: u32) -> (r: Option<i64>)
    requires
        civil_fits(year as int, month as int, day),
    ensures
        r is Some <==> civil_day(year as int, month as int, day) is Some,
        r matches Some(days) ==> civil_day(year as int, month as int, day) == Some(days as int),
{
    if month < 1 || month > 12 || day == 0 {
        return None;
    }
    let year: i64 = if month <= 2 {
        year as i64 - 1
    } else {
        year as i64
    };
    let era: i64 = four_centuries(year);
    let yoe: i64 = year - era * 400;
    let day: i64 = if day <= 0x7fff_ffff {
        day as i64
    } else {
        day as i64 - 0x1_0000_0000
    };
    let shifted: i64 = if month > 2 {
        month as i64 - 3
    } else {
        month as i64 + 9
    };
    let doy: i64 = (153 * shifted + 2) / 5 + day - 1;
    let leap: i64 = leap_days(yoe);
    let max_day: i64 = if month == 4 || month == 6 || month == 9 || month == 11 {
        30
    } else if month == 2 {
        if leap > 0 {
            29
        } else {
            28
        }
    } else {
        31
    };
    if day > max_day {
        return None;
    }
    let doe: i64 = yoe * 365 + leap + doy;
    proof {
        lemma_eras(year as int);
    }
    Some(era * 146_097 + doe - 719_468)
}

/// The value of a decimal digit.
pub open spec fn digit_value(c: char) -> Option<nat> {
    if '0' as int <= c as int <= '9' as int {
        Some((c as int - '0' as int) as nat)
    } else {
        None
    }
}

/// The number that a run of decimal digits writes.
pub open spec fn digits_value(s: Seq<char>) -> Option<nat>
    decreases s.len(),
{
    if s.len() == 0 {
        Some(0)
    } else {
        match (digits_value(s.drop_last()), digit_value(s.last())) {
            (Some(high), Some(low)) => Some(10 * high + low),
            _ => None,
        }
    }
}

/// The number that a text writes: decimal digits, at least one, after a plus sign or
/// none.
pub open spec fn number_value(s: Seq<char>) -> Option<nat> {
    if s.len() == 0 {
        None
    } else if s[0] == '+' {
        if s.len() == 1 {
            None
        } else {
            digits_value(s.drop_first())
        }
    } else {
        digits_value(s)
    }
}

fn code_of_digit(c: char) -> (r: Option<u32>)
    ensures
        r is Some <==> digit_value(c) is Some,
        r matches Some(value) ==> digit_value(c) == Some(value as nat) && value < 10,
{
    let code: u32 = c as u32;
    if 0x30 <= code && code <= 0x39 {
        Some(code - 0x30)
    } else {
        None
    }
}

proof fn lemma_digits_prefix(s: Seq<char>, i: int)
    requires
        0 <= i <= s.len(),
        digits_value(s.take(i)) is None,
    ensures
        digits_value(s) is None,
    decreases s.len() - i,
{
    if i < s.len() {
        assert(s.take(i + 1).drop_last() =~= s.take(i));
        lemma_digits_prefix(s, i + 1);
    } else {
        assert(s.take(i) =~= s);
    }
}

/// The largest number that so many digits write.
spec fn all_nines(digits: nat) -> nat
    decreases digits,
{
    if digits == 0 {
        0
    } else {
        10 * all_nines((digits - 1) as nat) + 9
    }
}

fn read_digits(chars: &Vec<char>, from: usize) -> (r: Option<u32>)
    requires
        from <= chars.len() <= 8,
    ensures
        r is Some <==> digits_value(chars@.skip(from as int)) is Some,
        r matches Some(value) ==> digits_value(chars@.skip(from as int)) == Some(value as nat)
            && value < 100_000_000 && (chars.len() <= 6 ==> value < 1_000_000),
{
    let ghost digits = chars@.skip(from as int);
    let mut value: u32 = 0;
    let mut i: usize = from;
    proof {
        assert(digits.take(0) =~= seq![]);
        reveal_with_fuel(all_nines, 9);
    }
    while i < chars.len()
        invariant
            from <= i <= chars.len() <= 8,
            digits == chars@.skip(from as int),
            digits_value(digits.take(i - from)) == Some(value as nat),
            value <= all_nines((i - from) as nat),
            all_nines(8) == 99_999_999,
            forall|n: nat| n <= 8 ==> #[trigger] all_nines(n) <= 99_999_999,
            forall|n: nat| n <= 6 ==> #[trigger] all_nines(n) <= 999_999,
        decreases chars.len() - i,
    {
        proof {
            assert(digits.take(i - from + 1).drop_last() =~= digits.take(i - from));
            assert(digits.take(i - from + 1).last() == chars@[i as int]);
        }
        match code_of_digit(chars[i]) {
            Some(low) => {
                assert(all_nines((i - from + 1) as nat) == 10 * all_nines((i - from) as nat) + 9);
                assert(all_nines((i - from + 1) as nat) <= 99_999_999);
                value = 10 * value + low;
            },
            None => {
                proof {
                    lemma_digits_prefix(digits, i - from + 1);
                }
                return None;
            },
        }
        i = i + 1;
    }
    assert(digits.take(digits.len() as int) =~= digits);
    Some(value)
}

fn read_number(text: &str) -> (r: Option<u32>)
    requires
        text@.len() <= 8,
    ensures
        r is Some <==> number_value(text@) is Some,
        r matches Some(value) ==> number_value(text@) == Some(value as nat) && value < 100_000_000
            && (text@.len() <= 6 ==> value < 1_000_000),
{
    let chars = chars_of(text);
    if chars.len() == 0 {
        return None;
    }
    if chars[0] == '+' {
        if chars.len() == 1 {
            return None;
        }
        assert(text@.skip(1) =~= text@.drop_first());
        read_digits(&chars, 1)
    } else {
        assert(text@.skip(0) =~= text@);
        read_digits(&chars, 0)
    }
}

/// The year, month and day that a date of the form `year-month-day` writes.
pub open spec fn date_parts(date: Seq<char>) -> Option<(nat, nat, nat)> {
    match split_at_first(date, "-"@) {
        Some((year, rest)) => match split_at_first(rest, "-"@) {
            Some((month, day)) => match (
                number_value(year),
                number_value(month),
                number_value(day),
            ) {
                (Some(y), Some(m), Some(d)) => if split_at_first(day, "-"@) is None {
                    Some((y, m, d))
                } else {
                    None
                },
                _ => None,
            },
            None => None,
        },
        None => None,
    }
}

/// The day number of the date that the first ten characters of a text write.
pub open spec fn expiry_days(expiry: Seq<char>) -> Option<int> {
    if expiry.len() < 10 {
        None
    } else {
        match date_parts(expiry.take(10)) {
            Some((year, month, day)) => civil_day(year as int, month as int, day as u32),
            None => None,
        }
    }
}

/// The day number of the date that the first ten characters of a text write.
pub fn parse_expiry_days(expiry: &str) -> (r: Option<i64>)
    ensures
        r is Some <==> expiry_days(expiry@) is Some,
        r matches Some(days) ==> expiry_days(expiry@) == Some(days as int),
{
    let length: usize = expiry.unicode_len();
    if length < 10 {
        return None;
    }
    let date = expiry.substring_char(0, 10);
    assert(date@ =~= expiry@.take(10));
    proof {
        reveal_strlit("-");
    }
    let (year, rest) = match split_once(date, "-") {
        Some(parts) => parts,
        None => {
            return None;
        },
    };
    let (month, day) = match split_once(rest, "-") {
        Some(parts) => parts,
        None => {
            return None;
        },
    };
    let year = match read_number(year) {
        Some(year) => year,
        None => {
            return None;
        },
    };
    let month = match read_number(month) {
        Some(month) => month,
        None => {
            return None;
        },
    };
    let day_number = match read_number(day) {
        Some(day) => day,
        None => {
            return None;
        },
    };
    if split_once(day, "-").is_some() {
        return None;
    }
    proof {
        lemma_small_dates_fit(year as int, month as int, day_number);
    }
    days_from_civil(year as i32, month, day_number)
}

proof fn lemma_small_dates_fit(year: int, month: int, day: u32)
    requires
        0 <= year < 1_000_000,
        day < 100_000_000,
    ensures
        civil_fits(year, month, day),
{
}

/// Within a month, each day's number is one more than that of the day before it.
pub proof fn law_days_are_consecutive(year: int, month: int, day: u32)
    requires
        day < i32::MAX,
        civil_day(year, month, day) is Some,
        civil_day(year, month, (day + 1) as u32) is Some,
    ensures
        civil_day(year, month, (day + 1) as u32)->0 == civil_day(year, month, day)->0 + 1,
{
}

/// Whether a year of the Gregorian calendar has a leap day.
pub open spec fn is_leap_year(year: int) -> bool {
    year % 4 == 0 && (year % 100 != 0 || year % 400 == 0)
}

/// The number of days of a month of the Gregorian calendar.
pub open spec fn month_length(year: int, month: int) -> int {
    if month == 2 {
        if is_leap_year(year) {
            29
        } else {
            28
        }
    } else if month == 4 || month == 6 || month == 9 || month == 11 {
        30
    } else {
        31
    }
}

proof fn lemma_quotient_step(y: int, d: int)
    requires
        d > 0,
    ensures
        y / d - (y - 1) / d == if y % d == 0 {
            1int
        } else {
            0int
        },
{
    let q = y / d;
    let r = y % d;
    vstd::arithmetic::div_mod::lemma_fundamental_div_mod(y, d);
    vstd::arithmetic::div_mod::lemma_mod_bound(y, d);
    if r == 0 {
        assert(y - 1 == (q - 1) * d + (d - 1)) by (nonlinear_arith)
            requires
                y == d * q + r,
                r == 0,
        ;
        vstd::arithmetic::div_mod::lemma_fundamental_div_mod_converse(y - 1, d, q - 1, d - 1);
    } else {
        assert(y - 1 == q * d + (r - 1)) by (nonlinear_arith)
            requires
                y == d * q + r,
        ;
        vstd::arithmetic::div_mod::lemma_fundamental_div_mod_converse(y - 1, d, q, r - 1);
    }
}

/// The number of days before a year that starts in March.
spec fn days_before(y: int) -> int {
    365 * y + y / 4 - y / 100 + y / 400
}

/// The day numbers are those of the Gregorian calendar: they start with 1970, and each
/// month starts as many days after the one before it as that one is long.
pub proof fn law_days_are_gregorian(year: int, month: int)
    requires
        1 <= month <= 12,
    ensures
        day_number(1970, 1, 1) == 0,
        month < 12 ==> day_number(year, month + 1, 1) == day_number(year, month, 1) + month_length(
            year,
            month,
        ),
        month == 12 ==> day_number(year + 1, 1, 1) == day_number(year, month, 1) + month_length(
            year,
            month,
        ),
{
    let (next_year, next_month) = if month == 12 {
        (year + 1, 1int)
    } else {
        (year, month + 1)
    };
    let y = march_year(year, month);
    let next = march_year(next_year, next_month);
    assert(day_number(year, month, 1) == days_before(y) + day_of_march_year(month, 1) - 719_468);
    assert(day_number(next_year, next_month, 1) == days_before(next) + day_of_march_year(
        next_month,
        1,
    ) - 719_468);
    if month == 2 {
        lemma_quotient_step(year, 4);
        lemma_quotient_step(year, 100);
        lemma_quotient_step(year, 400);
        lemma_divisors(year);
        assert(days_before(next) == days_before(y) + 365 + if is_leap_year(year) {
            1int
        } else {
            0int
        });
    } else {
        assert(next == y);
        lemma_month_offsets(month);
    }
}

proof fn lemma_divisors(year: int)
    ensures
        year % 100 == 0 ==> year % 4 == 0,
        year % 400 == 0 ==> year % 100 == 0,
{
}

proof fn lemma_month_offsets(month: int)
    requires
        1 <= month <= 12,
        month != 2,
    ensures
        month < 12 ==> day_of_march_year(month + 1, 1) == day_of_march_year(month, 1)
            + month_length(0, month),
        month == 12 ==> day_of_march_year(1, 1) == day_of_march_year(month, 1) + 31,
{
}

} // verus!
