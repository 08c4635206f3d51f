//! How long an utterance takes to say. The estimate is that of single-precision
//! arithmetic, carried out on whole numbers of the 2^32nd part of a second.

use crate::rounding::{divide_half_even, half_even, lemma_half_even_near, nearest_single, round_single};
use crate::text::{chars_of, is_white_space, white_space};
use vstd::prelude::*;

verus! {

/// The number of units in a second.
pub const SECOND: u64 = 0x1_0000_0000;

/// The shortest time an utterance takes, 0.8 seconds.
pub const SHORTEST: u64 = 3_435_973_888;

/// The longest time an utterance takes, six seconds.
pub const LONGEST: u64 = 25_769_803_776;

/// Whether a word starts at a place: a character that is not white space, with none or
/// white space before it.
pub open spec fn word_starts(s: Seq<char>, i: int) -> bool {
    !is_white_space(s[i]) && (i == 0 || is_white_space(s[i - 1]))
}

/// The number of words of a text.
pub open spec fn word_count(s: Seq<char>) -> nat
    decreases s.len(),
{
    if s.len() == 0 {
        0
    } else {
        word_count(s.drop_last()) + if word_starts(s, s.len() - 1) {
            1nat
        } else {
            0nat
        }
    }
}

/// The number of commas of a text.
pub open spec fn comma_count(s: Seq<char>) -> nat
    decreases s.len(),
{
    if s.len() == 0 {
        0
    } else {
        comma_count(s.drop_last()) + if s.last() == ',' {
            1nat
        } else {
            0nat
        }
    }
}

/// The number of full stops, exclamation marks and question marks of a text.
pub open spec fn stop_count(s: Seq<char>) -> nat
    decreases s.len(),
{
    if s.len() == 0 {
        0
    } else {
        stop_count(s.drop_last()) + if s.last() == '.' || s.last() == '!' || s.last() == '?' {
            1nat
        } else {
            0nat
        }
    }
}

/// The counts of a text.
struct Counts {
    words: usize,
    commas: usize,
    stops: usize,
}

fn count(text: &str) -> (r: Counts)
    ensures
        r.words == word_count(text@),
        r.commas == comma_count(text@),
        r.stops == stop_count(text@),
{
    let chars = chars_of(text);
    let mut words: usize = 0;
    let mut commas: usize = 0;
    let mut stops: usize = 0;
    let mut blank = true;
    let mut i: usize = 0;
    assert(text@.take(0) =~= seq![]);
    while i < chars.len()
        invariant
            chars@ == text@,
            i <= chars.len(),
            words <= i,
            commas <= i,
            stops <= i,
            words == word_count(text@.take(i as int)),
            commas == comma_count(text@.take(i as int)),
            stops == stop_count(text@.take(i as int)),
            blank == (i == 0 || is_white_space(text@[i - 1])),
        decreases chars.len() - i,
    {
        let c: char = chars[i];
        let ghost now = text@.take(i + 1);
        assert(now.drop_last() =~= text@.take(i as int));
        assert(now.last() == c);
        assert(i > 0 ==> now[i - 1] == text@[i - 1]);
        let white = white_space(c);
        if !white && blank {
            words = words + 1;
        }
        if c == ',' {
            commas = commas + 1;
        }
        if c == '.' || c == '!' || c == '?' {
            stops = stops + 1;
        }
        blank = white;
        i = i + 1;
    }
    assert(text@.take(text@.len() as int) =~= text@);
    Counts { words, commas, stops }
}

/// A count as a single-precision number.
pub open spec fn single_count(n: nat) -> nat {
    nearest_single(n * SECOND as nat, 1)
}

/// The time that words take, at 2.7 of them in a second.
pub open spec fn word_time(words: nat) -> nat {
    nearest_single(single_count(words) * 0x40_0000, 11_324_621)
}

/// The time that commas take, at 0.15 seconds for each.
pub open spec fn comma_time(commas: nat) -> nat {
    nearest_single(single_count(commas) * 10_066_330, 0x400_0000)
}

/// The time that the ends of sentences take, at 0.3 seconds for each.
pub open spec fn stop_time(stops: nat) -> nat {
    nearest_single(single_count(stops) * 10_066_330, 0x200_0000)
}

/// The time that a text takes, before it is bounded.
pub open spec fn speaking_time(s: Seq<char>) -> nat {
    let words = word_count(s);
    let spoken = word_time(
        if words == 0 {
            1
        } else {
            words
        },
    );
    nearest_single(
        nearest_single(spoken + comma_time(comma_count(s)), 1) + stop_time(stop_count(s)),
        1,
    )
}

/// The time that a text takes, bounded.
pub open spec fn bounded_time(s: Seq<char>) -> nat {
    let time = speaking_time(s);
    if time < SHORTEST {
        SHORTEST as nat
    } else if time > LONGEST {
        LONGEST as nat
    } else {
        time
    }
}

/// How many nanoseconds a text takes.
pub open spec fn utterance_nanos(s: Seq<char>) -> nat {
    half_even(bounded_time(s) * 1_000_000_000, SECOND as nat)
}

fn round_count(n: usize) -> (r: u128)
    ensures
        r == single_count(n as nat),
        n > 0 ==> r >= 0x8000_0000,
        r <= 0x2_0000_0000_0000_0000_0000_0002,
{
    round_single(n as u128 * 0x1_0000_0000, 1)
}

/// No text takes less than 0.8 seconds, in single precision and rounded to a nanosecond,
/// nor more than six.
pub proof fn law_durations_are_bounded(s: Seq<char>)
    ensures
        800_000_012 <= utterance_nanos(s) <= 6_000_000_000,
{
    lemma_half_even_near(bounded_time(s) * 1_000_000_000, SECOND as nat);
}

/// Estimates how many nanoseconds a text takes to say.
pub fn estimate_utterance_duration(text: &str) -> (r: u64)
    ensures
        r == utterance_nanos(text@),
{
    let counts = count(text);
    let words: usize = if counts.words == 0 {
        1
    } else {
        counts.words
    };
    let spoken: u128 = round_single(round_count(words) * 0x40_0000, 11_324_621);
    let commas: u128 = round_single(round_count(counts.commas) * 10_066_330, 0x400_0000);
    let stops: u128 = round_single(round_count(counts.stops) * 10_066_330, 0x200_0000);
    let paused: u128 = round_single(spoken + commas, 1);
    let time: u128 = round_single(paused + stops, 1);
    let bounded: u128 = if time < SHORTEST as u128 {
        SHORTEST as u128
    } else if time > LONGEST as u128 {
        LONGEST as u128
    } else {
        time
    };
    let nanos: u128 = divide_half_even(bounded * 1_000_000_000, SECOND as u128);
    nanos as u64
}

} // verus!
