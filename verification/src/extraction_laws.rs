//! What the facts of a reply keep of what the reply writes.

use crate::calendar::{
    civil_day, date_parts, digit_value, digits_value, expiry_days, last_day, month_length,
    number_value,
};
use crate::extraction::{
    at_most_one, number_importance, object_facts, objects_facts, reply_facts, sanitized, tidied,
    whole_facts, written_fact, written_facts,
};
use crate::importance::ONE;
use crate::json::{member, member_of, parsed, text_member, value_or_text, Json, JsonNumber};
use crate::text::{decimal, digit, first_at, occurs, occurs_at, split_at_first, trimmed};
use crate::types::Fact;
use vstd::prelude::*;

verus! {

/// The member of an object is the first with that name; one of another name in front does
/// not matter.
pub proof fn law_members_are_found_by_name(
    members: Seq<(Seq<char>, Json)>,
    key: Seq<char>,
    other: (Seq<char>, Json),
)
    ensures
        member(Json::Object(members), key) is Some <==> exists|i: int|
            0 <= i < members.len() && (#[trigger] members[i]).0 == key,
        other.0 == key ==> member(Json::Object(seq![other] + members), key) == Some(other.1),
        other.0 != key ==> member(Json::Object(seq![other] + members), key) == member(
            Json::Object(members),
            key,
        ),
        text_member(Json::Object(seq![other] + members), other.0) == match other.1 {
            Json::Text(text) => Some(text),
            _ => None,
        },
    decreases members.len(),
{
    assert((seq![other] + members).drop_first() =~= members);
    if members.len() > 0 {
        let rest = members.drop_first();
        law_members_are_found_by_name(rest, key, members[0]);
        assert(seq![members[0]] + rest =~= members);
        if exists|i: int| 0 <= i < members.len() && (#[trigger] members[i]).0 == key {
            let i = choose|i: int| 0 <= i < members.len() && (#[trigger] members[i]).0 == key;
            if i > 0 {
                assert(rest[i - 1] == members[i]);
            }
        }
        if member_of(members, key) is Some && members[0].0 != key {
            let i = choose|i: int| 0 <= i < rest.len() && (#[trigger] rest[i]).0 == key;
            assert(members[i + 1] == rest[i]);
        }
    }
}

/// An object writes a fact exactly when its members `fact` and `expiry` are texts and its
/// member `importance` is a number; the fact holds just these. A list of three such values
/// writes the same.
pub proof fn law_facts_hold_what_is_written(
    members: Seq<(Seq<char>, Json)>,
    text: Seq<char>,
    number: JsonNumber,
    expiry: Seq<char>,
)
    ensures
        ({
            let value = Json::Object(members);
            &&& written_fact(value) is Some <==> text_member(value, "fact"@) is Some && text_member(
                value,
                "expiry"@,
            ) is Some && (member(value, "importance"@) matches Some(Json::Number(_)))
            &&& written_fact(value) matches Some(fact) ==> {
                &&& text_member(value, "fact"@) == Some(fact.fact)
                &&& text_member(value, "expiry"@) == Some(fact.expiry)
                &&& member(value, "importance"@) matches Some(Json::Number(given))
                    && fact.importance == number_importance(given)
            }
        }),
        written_fact(Json::Array(seq![Json::Text(text), Json::Number(number), Json::Text(expiry)]))
            == Some(Fact { fact: text, importance: number_importance(number), expiry }),
        written_fact(Json::Text(text)) is None,
{
}

/// A list writes facts exactly when each of its values writes one, and then writes these,
/// each in its place.
pub proof fn law_lists_write_a_fact_for_each_value(values: Seq<Json>)
    ensures
        written_facts(values) is Some <==> forall|i: int|
            0 <= i < values.len() ==> written_fact(#[trigger] values[i]) is Some,
        written_facts(values) matches Some(facts) ==> facts.len() == values.len() && forall|
            i: int,
        |
            0 <= i < values.len() ==> written_fact(#[trigger] values[i]) == Some(facts[i]),
    decreases values.len(),
{
    if values.len() > 0 {
        let before = values.drop_last();
        law_lists_write_a_fact_for_each_value(before);
        if forall|i: int|
            0 <= i < values.len() ==> written_fact(#[trigger] values[i]) is Some {
            assert forall|i: int| 0 <= i < before.len() implies written_fact(
                #[trigger] before[i],
            ) is Some by {
                assert(before[i] == values[i]);
            }
            assert(written_fact(values[values.len() - 1]) is Some);
        }
        if let Some(facts) = written_facts(values) {
            assert forall|i: int| 0 <= i < values.len() implies written_fact(
                #[trigger] values[i],
            ) == Some(facts[i]) by {
                if i < before.len() {
                    assert(before[i] == values[i]);
                }
            }
        }
    }
}

/// What one object of a reply gives: the facts of its list, if it is an extraction, or the
/// fact that it is itself, or none.
pub proof fn law_what_one_object_gives(value: Json)
    ensures
        member(value, "facts"@) matches Some(Json::Array(items)) ==> (written_facts(items)
            matches Some(facts) ==> object_facts(Some(value)) == facts && whole_facts(Some(value))
            == facts),
        member(value, "facts"@) is None && member(value, "fact"@) is Some ==> (written_fact(value)
            matches Some(fact) ==> object_facts(Some(value)) == seq![fact] && whole_facts(
            Some(value),
        ) == seq![fact]),
        member(value, "facts"@) is None && (member(value, "fact"@) is None || written_fact(value)
            is None) ==> object_facts(Some(value)).len() == 0 && whole_facts(Some(value)).len()
            == 0,
        object_facts(None).len() == 0,
        whole_facts(None).len() == 0,
{
}

/// The objects of a reply give their facts in order, each for itself.
pub proof fn law_objects_give_their_facts_in_order(
    values: Seq<Option<Json>>,
    more: Seq<Option<Json>>,
)
    ensures
        objects_facts(values + more) == objects_facts(values) + objects_facts(more),
        more.len() == 1 ==> objects_facts(more) == object_facts(more[0]),
    decreases more.len(),
{
    if more.len() == 0 {
        assert(values + more =~= values);
        assert(objects_facts(values) + objects_facts(more) =~= objects_facts(values));
    } else {
        law_objects_give_their_facts_in_order(values, more.drop_last());
        assert((values + more).drop_last() =~= values + more.drop_last());
        assert(objects_facts(values + more) =~= objects_facts(values) + objects_facts(more));
        if more.len() == 1 {
            assert(more.drop_last() =~= seq![]);
            assert(objects_facts(more) =~= object_facts(more[0]));
        }
    }
}

/// Facts are tidied each for itself and keep their order. One with a text keeps it, trimmed,
/// and keeps its importance where that is within zero and one, and its expiry, trimmed,
/// where that is not blank; one without a text is dropped.
pub proof fn law_facts_are_tidied_each_for_itself(facts: Seq<Fact>, more: Seq<Fact>, fact: Fact)
    ensures
        sanitized(facts + more) == sanitized(facts) + sanitized(more),
        trimmed(fact.fact).len() == 0 ==> sanitized(seq![fact]).len() == 0,
        trimmed(fact.fact).len() > 0 ==> {
            let tidy = sanitized(seq![fact])[0];
            &&& sanitized(seq![fact]).len() == 1
            &&& tidy.fact == trimmed(fact.fact)
            &&& trimmed(fact.expiry).len() > 0 ==> tidy.expiry == trimmed(fact.expiry)
            &&& trimmed(fact.expiry).len() == 0 ==> tidy.expiry == "unknown"@
            &&& !fact.importance.is_nan() && 0 <= fact.importance.rank() <= ONE
                ==> tidy.importance == fact.importance
            &&& !fact.importance.is_nan() && fact.importance.rank() > ONE
                ==> tidy.importance.rank() == ONE
            &&& !fact.importance.is_nan() && fact.importance.rank() < 0 ==> tidy.importance.rank()
                == 0
        },
    decreases more.len(),
{
    if more.len() == 0 {
        assert(facts + more =~= facts);
        assert(sanitized(facts) + sanitized(more) =~= sanitized(facts));
    } else {
        law_facts_are_tidied_each_for_itself(facts, more.drop_last(), fact);
        assert((facts + more).drop_last() =~= facts + more.drop_last());
        assert(sanitized(facts + more) =~= sanitized(facts) + sanitized(more));
    }
    assert(seq![fact].drop_last() =~= seq![]);
    assert(sanitized(seq![]) =~= seq![]);
    assert(sanitized(seq![fact]) =~= at_most_one(tidied(fact)));
}

/// The facts of a reply are those of its objects, tidied, and where these give none those
/// of the whole of it.
pub proof fn law_replies_give_the_facts_of_their_objects(
    values: Seq<Option<Json>>,
    whole: Option<Json>,
)
    ensures
        objects_facts(values).len() > 0 ==> reply_facts(values, whole) == sanitized(
            objects_facts(values),
        ),
        objects_facts(values).len() == 0 ==> reply_facts(values, whole) == sanitized(
            whole_facts(whole),
        ),
{
}

/// A number and its negative have importances that differ in the sign alone.
pub proof fn law_negative_numbers_are_mirrored(bits: u64)
    requires
        bits <= 0x7ff0_0000_0000_0000,
    ensures
        number_importance(JsonNumber::Double((bits + 0x8000_0000_0000_0000) as u64)).bits
            == number_importance(JsonNumber::Double(bits)).bits + 0x8000_0000,
        number_importance(JsonNumber::Double((bits + 0x8000_0000_0000_0000) as u64)).rank()
            == -number_importance(JsonNumber::Double(bits)).rank(),
{
    crate::importance::lemma_double_gives_a_number(bits as nat);
}

/// The arguments of a call that are JSON are taken as that value, and any other text as a
/// text.
pub proof fn law_arguments_are_read_as_written(text: Seq<char>)
    ensures
        parsed(text) is Some ==> value_or_text(text) == parsed(text)->0,
        parsed(text) is None ==> value_or_text(text) == Json::Text(text),
{
}

/// The digits of a number are read as that number.
pub proof fn law_digits_are_read_back(n: nat)
    ensures
        digits_value(decimal(n)) == Some(n),
        number_value(decimal(n)) == Some(n),
    decreases n,
{
    if n < 10 {
        assert(decimal(n).drop_last() =~= seq![]);
        assert(digits_value(Seq::<char>::empty()) == Some(0nat));
        assert(decimal(n).drop_last() == Seq::<char>::empty());
        assert(digit_value(digit(n as int)) == Some(n));
        assert(decimal(n)[0] != '+');
    } else {
        law_digits_are_read_back(n / 10);
        assert(decimal(n).drop_last() =~= decimal(n / 10));
        assert(digit_value(digit((n % 10) as int)) == Some(n % 10));
        lemma_first_digit(n);
    }
}

proof fn lemma_first_digit(n: nat)
    ensures
        decimal(n).len() > 0,
        decimal(n)[0] != '+',
        forall|i: int| 0 <= i < decimal(n).len() ==> (#[trigger] decimal(n)[i]) != '-',
    decreases n,
{
    if n >= 10 {
        lemma_first_digit(n / 10);
        assert forall|i: int| 0 <= i < decimal(n).len() implies (#[trigger] decimal(n)[i])
            != '-' by {
            if i < decimal(n / 10).len() {
                assert(decimal(n)[i] == decimal(n / 10)[i]);
            }
        }
    }
}

proof fn lemma_dash(front: Seq<char>, back: Seq<char>)
    requires
        forall|i: int| 0 <= i < front.len() ==> (#[trigger] front[i]) != '-',
    ensures
        split_at_first(front + "-"@ + back, "-"@) == Some((front, back)),
{
    reveal_strlit("-");
    let whole = front + "-"@ + back;
    let n = front.len() as int;
    assert(whole.subrange(n, n + 1) =~= "-"@);
    assert(occurs_at(whole, "-"@, n));
    assert forall|j: int| 0 <= j < n implies !occurs_at(whole, "-"@, j) by {
        if occurs_at(whole, "-"@, j) {
            assert(whole.subrange(j, j + 1)[0] == '-');
            assert(whole[j] == front[j]);
        }
    }
    assert(first_at(whole, "-"@, n));
    let i = choose|i: int| first_at(whole, "-"@, i);
    assert(i == n) by {
        if i < n {
            assert(!occurs_at(whole, "-"@, i));
        } else if n < i {
            assert(!occurs_at(whole, "-"@, n));
        }
    }
    assert(whole.take(n) =~= front);
    assert(whole.skip(n + 1) =~= back);
}

proof fn lemma_no_dash(s: Seq<char>)
    requires
        forall|i: int| 0 <= i < s.len() ==> (#[trigger] s[i]) != '-',
    ensures
        split_at_first(s, "-"@) is None,
{
    reveal_strlit("-");
    if occurs(s, "-"@) {
        let i = choose|i: int| occurs_at(s, "-"@, i);
        assert(s.subrange(i, i + 1)[0] == '-');
        assert(s[i] == '-');
    }
}

/// A date of digits with dashes between them is read as its year, its month and its day.
pub proof fn law_dates_are_read_back(year: nat, month: nat, day: nat)
    ensures
        date_parts(decimal(year) + "-"@ + (decimal(month) + "-"@ + decimal(day))) == Some(
            (year, month, day),
        ),
{
    law_digits_are_read_back(year);
    law_digits_are_read_back(month);
    law_digits_are_read_back(day);
    lemma_first_digit(year);
    lemma_first_digit(month);
    lemma_first_digit(day);
    lemma_dash(decimal(year), decimal(month) + "-"@ + decimal(day));
    lemma_dash(decimal(month), decimal(day));
    lemma_no_dash(decimal(day));
}

/// Of an expiry only its first ten characters count, and they count as the date that they
/// write; a shorter one writes no day.
pub proof fn law_only_the_date_of_an_expiry_counts(date: Seq<char>, rest: Seq<char>)
    requires
        date.len() == 10,
    ensures
        expiry_days(date + rest) == expiry_days(date),
        date_parts(date) matches Some((year, month, day)) ==> expiry_days(date + rest)
            == civil_day(year as int, month as int, day as u32),
        date_parts(date) is None ==> expiry_days(date + rest) is None,
        rest.len() < 10 ==> expiry_days(rest) is None,
{
    assert((date + rest).take(10) =~= date);
    assert(date.take(10) =~= date);
}

/// A day of a month is accepted up to the month's length, and no day beyond, no day zero
/// and no month beyond twelve; February is taken to have 29 days in any year but four of
/// every four hundred.
pub proof fn law_dates_are_accepted_within_their_month(year: int, month: int, day: u32)
    requires
        day <= i32::MAX,
    ensures
        civil_day(year, month, day) is Some <==> 1 <= month <= 12 && 1 <= day <= last_day(
            year,
            month,
        ),
        1 <= month <= 12 && month != 2 ==> last_day(year, month) == month_length(year, month),
        28 <= last_day(year, 2) <= 29,
        last_day(year, 2) == 28 <==> (year - 1) % 400 < 4,
{
}

/// A plus sign in front of a number does not change it; alone it is no number, and no other
/// sign is taken.
pub proof fn law_numbers_may_have_a_plus_sign(n: nat, c: char, rest: Seq<char>)
    requires
        c != '+',
        !('0' as int <= c as int <= '9' as int),
    ensures
        number_value(seq!['+'] + decimal(n)) == Some(n),
        number_value(seq!['+']) is None,
        number_value(seq![]) is None,
        number_value(seq![c] + rest) is None,
{
    law_digits_are_read_back(n);
    lemma_first_digit(n);
    assert((seq!['+'] + decimal(n)).drop_first() =~= decimal(n));
    lemma_no_digit(seq![c] + rest);
}

proof fn lemma_no_digit(s: Seq<char>)
    requires
        s.len() > 0,
        digit_value(s[0]) is None,
    ensures
        digits_value(s) is None,
    decreases s.len(),
{
    if s.len() > 1 {
        lemma_no_digit(s.drop_last());
    }
}

} // verus!
