//! How near the numbers of the library are to what they stand for.

use crate::calendar::{day_of_second, digits_value};
use crate::extraction_laws::law_digits_are_read_back;
use crate::importance::{single_of_double, single_of_integer, Importance, INFINITE};
use crate::pace::{
    bounded_time, comma_count, comma_time, single_count, speaking_time, stop_count, stop_time,
    utterance_nanos, word_count, word_time, LONGEST, SECOND, SHORTEST,
};
use crate::rounding::{half_even, lemma_half_even_near, lemma_log2_bounds, log2, nearest_single};
use crate::text::{decimal, digit};
use vstd::arithmetic::power2::{lemma2_to64, lemma_pow2_adds, lemma_pow2_pos, pow2};
use vstd::prelude::*;

verus! {

/// A quotient is rounded to the integer that is nearest to it, and of two that are equally
/// near to the even one; whole quotients stay as they are.
pub proof fn law_quotients_are_rounded_to_the_nearest(num: nat, den: nat)
    requires
        den > 0,
    ensures
        2 * num <= 2 * half_even(num, den) * den + den,
        2 * half_even(num, den) * den <= 2 * num + den,
        num % den == 0 ==> half_even(num, den) == num / den,
        2 * (num % den) == den ==> half_even(num, den) % 2 == 0,
{
    lemma_half_even_near(num, den);
    let quotient = num / den;
    if 2 * (num % den) == den && quotient % 2 != 0 {
        assert((quotient + 1) % 2 == 0);
    }
}

/// A result of single-precision arithmetic is off by no more than the 2^24th part of what
/// it stands for.
pub proof fn law_single_precision_is_near(num: nat, den: nat)
    requires
        den > 0,
        num / den >= 0x80_0000,
    ensures
        0x100_0000 * (nearest_single(num, den) * den) <= 0x100_0000 * num + num,
        0x100_0000 * num <= 0x100_0000 * (nearest_single(num, den) * den) + num,
{
    let q = num / den;
    let k = log2(q);
    lemma_log2_bounds(q);
    lemma2_to64();
    assert(k >= 23) by {
        if k < 23 {
            if k + 1 < 23 {
                vstd::arithmetic::power2::lemma_pow2_strictly_increases(k + 1, 23);
            }
            assert(pow2(k + 1) <= pow2(23));
        }
    }
    let unit = pow2((k - 23) as nat);
    lemma_pow2_pos((k - 23) as nat);
    lemma_pow2_adds((k - 23) as nat, 23);
    assert(unit * 0x80_0000 == pow2(k));
    assert(num > 0) by (nonlinear_arith)
        requires
            den > 0,
            num / den >= 0x80_0000,
    ;
    let part = den * unit;
    assert(part > 0) by (nonlinear_arith)
        requires
            den > 0,
            unit > 0,
            part == den * unit,
    ;
    let h = half_even(num, part);
    lemma_half_even_near(num, part);
    assert(nearest_single(num, den) == h * unit);
    assert(h * unit * den == h * part) by (nonlinear_arith)
        requires
            part == den * unit,
    ;
    assert(q * den <= num) by (nonlinear_arith)
        requires
            den > 0,
            q == num / den,
    ;
    assert(0x80_0000 * part <= num) by (nonlinear_arith)
        requires
            part == den * unit,
            unit * 0x80_0000 <= q,
            q * den <= num,
            den > 0,
    ;
    assert(2 * h * part == 2 * (h * part)) by (nonlinear_arith);
}

/// So many words take as long as they do at 2.7 of them in a second, to the millionth part.
pub proof fn law_words_take_their_time(words: nat)
    requires
        words > 0,
    ensures
        ({
            let exact = 10 * words * SECOND;
            &&& 0x10_0000 * (27 * word_time(words)) <= 0x10_0000 * exact + exact
            &&& 0x10_0000 * exact <= 0x10_0000 * (27 * word_time(words)) + exact
        }),
{
    let units = words * SECOND as nat;
    let count = single_count(words);
    lemma_count(words);
    let num = count * 0x40_0000;
    assert(num / 11_324_621 >= 0x80_0000);
    law_single_precision_is_near(num, 11_324_621);
    assert(10 * words * SECOND == 10 * units);
}

/// So many commas take 0.15 seconds each, to the millionth part.
pub proof fn law_commas_take_their_time(commas: nat)
    ensures
        ({
            let exact = 3 * commas * SECOND;
            &&& 0x10_0000 * (20 * comma_time(commas)) <= 0x10_0000 * exact + exact
            &&& 0x10_0000 * exact <= 0x10_0000 * (20 * comma_time(commas)) + exact
        }),
{
    if commas > 0 {
        let units = commas * SECOND as nat;
        lemma_count(commas);
        let num = single_count(commas) * 10_066_330;
        assert(num / 0x400_0000 >= 0x80_0000);
        law_single_precision_is_near(num, 0x400_0000);
        assert(3 * commas * SECOND == 3 * units);
    }
}

/// So many ends of sentences take 0.3 seconds each, to the millionth part.
pub proof fn law_stops_take_their_time(stops: nat)
    ensures
        ({
            let exact = 3 * stops * SECOND;
            &&& 0x10_0000 * (10 * stop_time(stops)) <= 0x10_0000 * exact + exact
            &&& 0x10_0000 * exact <= 0x10_0000 * (10 * stop_time(stops)) + exact
        }),
{
    if stops > 0 {
        let units = stops * SECOND as nat;
        lemma_count(stops);
        let num = single_count(stops) * 10_066_330;
        assert(num / 0x200_0000 >= 0x80_0000);
        law_single_precision_is_near(num, 0x200_0000);
        assert(3 * stops * SECOND == 3 * units);
    }
}

proof fn lemma_count(n: nat)
    requires
        n > 0,
    ensures
        0x100_0000 * single_count(n) <= 0x100_0000 * (n * SECOND) + n * SECOND,
        0x100_0000 * (n * SECOND) <= 0x100_0000 * single_count(n) + n * SECOND,
        single_count(n) >= 0x8000_0000,
{
    let units = n * SECOND as nat;
    assert(units >= SECOND);
    assert(units / 1 == units);
    law_single_precision_is_near(units, 1);
}

/// A text takes the time of its words, of which there is at least one, of its commas and
/// of its ends of sentences together, to a hundred-thousandth part.
pub proof fn law_texts_take_the_time_of_their_parts(s: Seq<char>)
    ensures
        ({
            let words: nat = if word_count(s) == 0 {
                1
            } else {
                word_count(s)
            };
            let exact = (200 * words + 81 * comma_count(s) + 162 * stop_count(s)) * SECOND;
            &&& 0x2_0000 * (540 * speaking_time(s)) <= 0x2_0000 * exact + exact
            &&& 0x2_0000 * exact <= 0x2_0000 * (540 * speaking_time(s)) + exact
        }),
{
    let words: nat = if word_count(s) == 0 {
        1
    } else {
        word_count(s)
    };
    let commas = comma_count(s);
    let stops = stop_count(s);
    law_words_take_their_time(words);
    law_commas_take_their_time(commas);
    law_stops_take_their_time(stops);
    let spoken = word_time(words);
    assert(words * SECOND >= SECOND);
    let first = spoken + comma_time(commas);
    assert(first / 1 == first);
    law_single_precision_is_near(first, 1);
    let both = nearest_single(first, 1);
    assert(both * 1 == both);
    let second = both + stop_time(stops);
    assert(second / 1 == second);
    law_single_precision_is_near(second, 1);
    assert((200 * words + 81 * commas + 162 * stops) * SECOND == 200 * (words * SECOND) + 81 * (
    commas * SECOND) + 162 * (stops * SECOND)) by (nonlinear_arith);
}

/// An utterance lasts as long as its text takes, but for the bounds, to the nanosecond.
pub proof fn law_durations_are_those_of_the_text(s: Seq<char>)
    ensures
        ({
            let time = speaking_time(s);
            let nanos = utterance_nanos(s);
            &&& SHORTEST <= time <= LONGEST ==> {
                &&& 2 * time * 1_000_000_000 <= 2 * nanos * SECOND + SECOND
                &&& 2 * nanos * SECOND <= 2 * time * 1_000_000_000 + SECOND
            }
            &&& time < SHORTEST ==> nanos == 800_000_012
            &&& time > LONGEST ==> nanos == 6_000_000_000
        }),
{
    lemma_half_even_near(bounded_time(s) * 1_000_000_000, SECOND as nat);
}

/// An importance is shown in the hundredths that are nearest to it.
pub proof fn law_importances_are_shown_to_the_hundredth(importance: Importance)
    requires
        importance.magnitude() / 0x80_0000 < 150,
    ensures
        ({
            let exponent = importance.magnitude() / 0x80_0000;
            let fraction = importance.magnitude() % 0x80_0000;
            let significand = if exponent == 0 {
                fraction
            } else {
                0x80_0000 + fraction
            };
            let scale = pow2(
                if exponent == 0 {
                    149
                } else {
                    (150 - exponent) as nat
                },
            );
            &&& 2 * (significand * 100) <= 2 * importance.hundredths() * scale + scale
            &&& 2 * importance.hundredths() * scale <= 2 * (significand * 100) + scale
        }),
{
    let exponent = importance.magnitude() / 0x80_0000;
    let fraction = importance.magnitude() % 0x80_0000;
    if exponent == 0 {
        lemma_pow2_pos(149);
        lemma_half_even_near(fraction * 100, pow2(149));
    } else {
        lemma_pow2_pos((150 - exponent) as nat);
        lemma_half_even_near((0x80_0000 + fraction) * 100, pow2((150 - exponent) as nat));
    }
}

/// An importance that is a finite number is written with two digits behind the point, and
/// its digits, without the point, are read as its hundredths.
pub proof fn law_importances_are_written_in_hundredths(importance: Importance)
    requires
        importance.magnitude() < INFINITE,
        !importance.is_negative(),
    ensures
        exists|whole: Seq<char>, cents: Seq<char>|
            {
                &&& importance.rendered() == #[trigger] (whole + "."@ + cents)
                &&& cents.len() == 2
                &&& digits_value(whole + cents) == Some(importance.hundredths())
            },
{
    let h = importance.hundredths();
    let whole = decimal(h / 100);
    let cents = seq![digit(((h / 10) % 10) as int), digit((h % 10) as int)];
    assert(importance.rendered() =~= whole + "."@ + cents);
    law_digits_are_read_back(h / 100);
    let one = whole.push(cents[0]);
    let two = one.push(cents[1]);
    assert(whole + cents =~= two);
    assert(two.drop_last() =~= one);
    assert(one.drop_last() =~= whole);
    assert(digits_value(one) == Some((10 * (h / 100) + (h / 10) % 10) as nat));
    assert(digits_value(two) == Some((10 * (10 * (h / 100) + (h / 10) % 10) + h % 10) as nat));
    assert(importance.rendered() == whole + "."@ + cents);
}

/// A whole number is held by the single-precision number that is nearest to it.
pub proof fn law_whole_numbers_are_held_by_the_nearest(n: nat)
    requires
        n > 0,
    ensures
        ({
            let significand = single_of_integer(n) - (log2(n) + 126) * 0x80_0000;
            let scale = pow2(log2(n));
            &&& 2 * (n * 0x80_0000) <= 2 * significand * scale + scale
            &&& 2 * significand * scale <= 2 * (n * 0x80_0000) + scale
        }),
        single_of_integer(0) == 0,
{
    lemma_pow2_pos(log2(n));
    lemma_half_even_near(n * 0x80_0000, pow2(log2(n)));
}

/// A double-precision number that single precision can hold with all its places is held by
/// the single-precision number that is nearest to it; one that is too large is infinite.
pub proof fn law_doubles_are_held_by_the_nearest(magnitude: nat)
    requires
        897 <= magnitude / 0x10_0000_0000_0000,
        magnitude <= 0x7ff0_0000_0000_0000,
    ensures
        ({
            let places = (magnitude - 896 * 0x10_0000_0000_0000) as nat;
            let held = single_of_double(magnitude);
            &&& held <= INFINITE
            &&& held < INFINITE ==> 2 * places <= 2 * held * 0x2000_0000 + 0x2000_0000 && 2 * held
                * 0x2000_0000 <= 2 * places + 0x2000_0000
            &&& held == INFINITE ==> 2 * INFINITE * 0x2000_0000 <= 2 * places + 0x2000_0000
        }),
{
    let places = (magnitude - 896 * 0x10_0000_0000_0000) as nat;
    lemma_half_even_near(places, 0x2000_0000);
}

/// A day lasts as many seconds as it does: a point in time lies on the day that has begun
/// and has not ended.
pub proof fn law_points_in_time_lie_on_their_day(seconds: u64)
    ensures
        day_of_second(seconds) * 86_400 <= seconds < (day_of_second(seconds) + 1) * 86_400,
{
}

/// Importances that are not negative are ordered as their patterns, and a sign turns the
/// order round; both zeros are level.
pub proof fn law_importances_are_ordered_by_their_patterns(a: u32, b: u32)
    requires
        a <= INFINITE,
        b <= INFINITE,
    ensures
        ({
            let first = Importance { bits: a };
            let second = Importance { bits: b };
            let below_first = Importance { bits: (a + 0x8000_0000) as u32 };
            let below_second = Importance { bits: (b + 0x8000_0000) as u32 };
            &&& first.gt(second) <==> a > b
            &&& first.ge(second) <==> a >= b
            &&& below_first.gt(below_second) <==> a < b
            &&& below_first.ge(below_second) <==> a <= b
            &&& first.ge(below_second)
            &&& below_first.ge(second) <==> a == 0 && b == 0
        }),
{
}

/// Of two numbers one is larger exactly where the other is not at least as large, and they
/// tie exactly where each is at least as large as the other. What is no number is neither
/// larger nor at least as large, and ties with everything.
pub proof fn law_importances_are_compared_as_numbers(a: Importance, b: Importance)
    ensures
        !a.is_nan() && !b.is_nan() ==> {
            &&& a.gt(b) <==> !b.ge(a)
            &&& a.ties(b) <==> a.ge(b) && b.ge(a)
        },
        a.is_nan() || b.is_nan() ==> !a.gt(b) && !a.ge(b) && a.ties(b),
        a.is_nan() <==> a.bits % 0x8000_0000 > INFINITE,
{
}

} // verus!
