//! Reading facts out of the reply of a fact extraction.

use crate::fact_laws::all_numbers;
use crate::importance::{
    law_clamped_is_within_unit, lemma_double_gives_a_number, lemma_integer_gives_a_number,
    single_of_double, single_of_integer, Importance, ONE,
};
use crate::json::{
    data_of, find_member, find_text, has_finite_numbers, is_finite, json_of, member, member_of,
    parse_value, parsed, text_member, Json, JsonData, JsonNumber,
};
use crate::objects::{extract_json_objects, objects, strip_code_fences, unfenced};
use crate::text::{law_trim_is_idempotent, trim, trimmed};
use crate::types::{Fact, LlmConversationFact};
use vstd::prelude::*;

verus! {

/// A number of a JSON value as an importance: the nearest single-precision number.
pub open spec fn number_importance(number: JsonNumber) -> Importance {
    let bits = match number {
        JsonNumber::Whole(n) => single_of_integer(n as nat),
        JsonNumber::Negative(n) => if n < 0 {
            single_of_integer((-n) as nat) + 0x8000_0000
        } else {
            single_of_integer(n as nat)
        },
        JsonNumber::Double(bits) => if bits >= 0x8000_0000_0000_0000 {
            single_of_double((bits - 0x8000_0000_0000_0000) as nat) + 0x8000_0000
        } else {
            single_of_double(bits as nat)
        },
    };
    Importance { bits: bits as u32 }
}

/// A number of a JSON value as an importance: the nearest single-precision number.
pub fn importance_of_number(number: JsonNumber) -> (r: Importance)
    ensures
        r == number_importance(number),
{
    match number {
        JsonNumber::Whole(n) => Importance::of_integer(n, false),
        JsonNumber::Negative(n) => if n < 0 {
            Importance::of_integer((-(n as i128)) as u64, true)
        } else {
            Importance::of_integer(n as u64, false)
        },
        JsonNumber::Double(bits) => Importance::of_double(bits),
    }
}

/// A finite number of a JSON value is an importance that is a number.
pub proof fn law_finite_numbers_are_importances(number: JsonNumber)
    requires
        is_finite(number),
    ensures
        !number_importance(number).is_nan(),
{
    match number {
        JsonNumber::Whole(n) => {
            lemma_integer_gives_a_number(n as nat);
        },
        JsonNumber::Negative(n) => {
            lemma_integer_gives_a_number(
                if n < 0 {
                    (-n) as nat
                } else {
                    n as nat
                },
            );
        },
        JsonNumber::Double(bits) => {
            lemma_double_gives_a_number((bits % 0x8000_0000_0000_0000) as nat);
        },
    }
}

/// The fact that a JSON value writes: an object with a text `fact`, a number
/// `importance` and a text `expiry`, or an array of these three.
pub open spec fn written_fact(value: Json) -> Option<Fact> {
    match value {
        Json::Object(_) => match (
            text_member(value, "fact"@),
            member(value, "importance"@),
            text_member(value, "expiry"@),
        ) {
            (Some(fact), Some(Json::Number(number)), Some(expiry)) => Some(
                Fact { fact, importance: number_importance(number), expiry },
            ),
            _ => None,
        },
        Json::Array(items) => if items.len() == 3 {
            match (items[0], items[1], items[2]) {
                (Json::Text(fact), Json::Number(number), Json::Text(expiry)) => Some(
                    Fact { fact, importance: number_importance(number), expiry },
                ),
                _ => None,
            }
        } else {
            None
        },
        _ => None,
    }
}

/// Reads the fact that a JSON value writes.
pub fn decode_fact(data: &JsonData) -> (r: Option<LlmConversationFact>)
    ensures
        r.deep_view() == written_fact(data.deep_view()),
{
    match data {
        JsonData::Object(_) => {
            let fact = find_text(data, "fact");
            let importance = find_member(data, "importance");
            let expiry = find_text(data, "expiry");
            match (fact, importance, expiry) {
                (Some(fact), Some(JsonData::Number(number)), Some(expiry)) => Some(
                    LlmConversationFact {
                        fact: fact.to_string(),
                        importance: importance_of_number(*number),
                        expiry: expiry.to_string(),
                    },
                ),
                _ => None,
            }
        },
        JsonData::Array(items) => {
            let ghost all = data.deep_view()->Array_0;
            assert(all.len() == items.len());
            if items.len() == 3 {
                assert(all[0] == json_of(items@[0]));
                assert(all[1] == json_of(items@[1]));
                assert(all[2] == json_of(items@[2]));
                match (&items[0], &items[1], &items[2]) {
                    (
                        JsonData::Text(fact),
                        JsonData::Number(number),
                        JsonData::Text(expiry),
                    ) => Some(
                        LlmConversationFact {
                            fact: fact.clone(),
                            importance: importance_of_number(*number),
                            expiry: expiry.clone(),
                        },
                    ),
                    _ => None,
                }
            } else {
                None
            }
        },
        _ => None,
    }
}

/// The facts that JSON values write, where each of them writes one.
pub open spec fn written_facts(values: Seq<Json>) -> Option<Seq<Fact>>
    decreases values.len(),
{
    if values.len() == 0 {
        Some(seq![])
    } else {
        match (written_facts(values.drop_last()), written_fact(values.last())) {
            (Some(facts), Some(fact)) => Some(facts.push(fact)),
            _ => None,
        }
    }
}

proof fn lemma_unwritten_facts(values: Seq<Json>, n: int)
    requires
        0 <= n <= values.len(),
        written_facts(values.take(n)) is None,
    ensures
        written_facts(values) is None,
    decreases values.len() - n,
{
    if n < values.len() {
        assert(values.take(n + 1).drop_last() =~= values.take(n));
        lemma_unwritten_facts(values, n + 1);
    } else {
        assert(values.take(n) =~= values);
    }
}

/// Reads the facts that JSON values write, where each of them writes one.
fn decode_facts(items: &Vec<JsonData>) -> (r: Option<Vec<LlmConversationFact>>)
    ensures
        r.deep_view() == written_facts(items.deep_view()),
{
    let ghost values = items.deep_view();
    let mut facts: Vec<LlmConversationFact> = Vec::new();
    let mut i: usize = 0;
    assert(values.take(0) =~= seq![]);
    assert(facts.deep_view() =~= seq![]);
    while i < items.len()
        invariant
            i <= items.len(),
            values == items.deep_view(),
            written_facts(values.take(i as int)) == Some(facts.deep_view()),
        decreases items.len() - i,
    {
        assert(values.take(i + 1).drop_last() =~= values.take(i as int));
        assert(values.take(i + 1).last() == items@[i as int].deep_view());
        match decode_fact(&items[i]) {
            Some(fact) => {
                let ghost before = facts.deep_view();
                facts.push(fact);
                assert(facts.deep_view() =~= before.push(fact.deep_view()));
            },
            None => {
                proof {
                    lemma_unwritten_facts(values, i + 1);
                }
                return None;
            },
        }
        i = i + 1;
    }
    assert(values.take(values.len() as int) =~= values);
    Some(facts)
}

/// The facts of an extraction: those in the array `facts` of an object.
pub open spec fn extraction(value: Json) -> Option<Seq<Fact>> {
    match member(value, "facts"@) {
        Some(Json::Array(items)) => written_facts(items),
        _ => None,
    }
}

/// Reads the facts of an extraction.
pub fn decode_extraction(data: &JsonData) -> (r: Option<Vec<LlmConversationFact>>)
    ensures
        r.deep_view() == extraction(data.deep_view()),
{
    match find_member(data, "facts") {
        Some(JsonData::Array(items)) => {
            assert(json_of(JsonData::Array(*items))->Array_0 =~= items.deep_view());
            decode_facts(items)
        },
        _ => None,
    }
}

/// The fact of an object that has a member `fact`.
pub open spec fn single_fact(value: Json) -> Option<Fact> {
    if member(value, "fact"@) is Some {
        written_fact(value)
    } else {
        None
    }
}

/// Reads the fact of an object that has a member `fact`.
pub fn decode_single_fact(data: &JsonData) -> (r: Option<LlmConversationFact>)
    ensures
        r.deep_view() == single_fact(data.deep_view()),
{
    match find_member(data, "fact") {
        Some(_) => decode_fact(data),
        None => None,
    }
}

/// One fact as a list, or none.
pub open spec fn at_most_one(fact: Option<Fact>) -> Seq<Fact> {
    match fact {
        Some(fact) => seq![fact],
        None => seq![],
    }
}

/// The facts of one object of a reply: those of an extraction, or the one that the
/// object itself is.
pub open spec fn object_facts(value: Option<Json>) -> Seq<Fact> {
    match value {
        Some(value) => match extraction(value) {
            Some(facts) => facts,
            None => at_most_one(single_fact(value)),
        },
        None => seq![],
    }
}

/// The facts of a reply that is one JSON value.
pub open spec fn whole_facts(value: Option<Json>) -> Seq<Fact> {
    match value {
        Some(value) => if member(value, "facts"@) is Some {
            match extraction(value) {
                Some(facts) => facts,
                None => seq![],
            }
        } else {
            at_most_one(single_fact(value))
        },
        None => seq![],
    }
}

/// The facts of the objects of a reply, in order.
pub open spec fn objects_facts(values: Seq<Option<Json>>) -> Seq<Fact>
    decreases values.len(),
{
    if values.len() == 0 {
        seq![]
    } else {
        objects_facts(values.drop_last()) + object_facts(values.last())
    }
}

fn facts_of_object(value: &Option<JsonData>) -> (r: Vec<LlmConversationFact>)
    ensures
        r.deep_view() == object_facts(value.deep_view()),
{
    match value {
        Some(data) => match decode_extraction(data) {
            Some(facts) => facts,
            None => list_of(decode_single_fact(data)),
        },
        None => list_of(None),
    }
}

fn list_of(fact: Option<LlmConversationFact>) -> (r: Vec<LlmConversationFact>)
    ensures
        r.deep_view() == at_most_one(fact.deep_view()),
{
    let mut list: Vec<LlmConversationFact> = Vec::new();
    match fact {
        Some(fact) => {
            list.push(fact);
            assert(list.deep_view() =~= seq![fact.deep_view()]);
        },
        None => {
            assert(list.deep_view() =~= seq![]);
        },
    }
    list
}

fn facts_of_whole(value: &Option<JsonData>) -> (r: Vec<LlmConversationFact>)
    ensures
        r.deep_view() == whole_facts(value.deep_view()),
{
    match value {
        Some(data) => match find_member(data, "facts") {
            Some(_) => match decode_extraction(data) {
                Some(facts) => facts,
                None => list_of(None),
            },
            None => list_of(decode_single_fact(data)),
        },
        None => list_of(None),
    }
}

/// A fact with its text and its expiry trimmed and its importance clamped; nothing if
/// its text is blank. A blank expiry becomes unknown.
pub open spec fn tidied(fact: Fact) -> Option<Fact> {
    let text = trimmed(fact.fact);
    let expiry = trimmed(fact.expiry);
    if text.len() == 0 {
        None
    } else {
        Some(
            Fact {
                fact: text,
                importance: fact.importance.clamped(),
                expiry: if expiry.len() == 0 {
                    "unknown"@
                } else {
                    expiry
                },
            },
        )
    }
}

/// The facts tidied, in order, without those whose text is blank.
pub open spec fn sanitized(facts: Seq<Fact>) -> Seq<Fact>
    decreases facts.len(),
{
    if facts.len() == 0 {
        seq![]
    } else {
        sanitized(facts.drop_last()) + at_most_one(tidied(facts.last()))
    }
}

fn tidy_fact(fact: &LlmConversationFact) -> (r: Option<LlmConversationFact>)
    ensures
        r.deep_view() == tidied(fact.deep_view()),
{
    let text = trim(fact.fact.as_str());
    let expiry = trim(fact.expiry.as_str());
    if text.unicode_len() == 0 {
        return None;
    }
    let expiry = if expiry.unicode_len() == 0 {
        "unknown".to_string()
    } else {
        expiry.to_string()
    };
    Some(
        LlmConversationFact {
            fact: text.to_string(),
            importance: fact.importance.clamp_to_unit(),
            expiry,
        },
    )
}

/// Tidies the facts and drops those whose text is blank.
pub fn sanitize_facts(facts: Vec<LlmConversationFact>) -> (r: Vec<LlmConversationFact>)
    ensures
        r.deep_view() == sanitized(facts.deep_view()),
{
    let ghost all = facts.deep_view();
    let mut kept: Vec<LlmConversationFact> = Vec::new();
    let mut i: usize = 0;
    assert(all.take(0) =~= seq![]);
    assert(kept.deep_view() =~= seq![]);
    while i < facts.len()
        invariant
            i <= facts.len(),
            all == facts.deep_view(),
            kept.deep_view() == sanitized(all.take(i as int)),
        decreases facts.len() - i,
    {
        assert(all.take(i + 1).drop_last() =~= all.take(i as int));
        assert(all.take(i + 1).last() == facts@[i as int].deep_view());
        let ghost before = kept.deep_view();
        match tidy_fact(&facts[i]) {
            Some(fact) => {
                kept.push(fact);
                assert(kept.deep_view() =~= before + seq![fact.deep_view()]);
            },
            None => {
                assert(kept.deep_view() =~= before + seq![]);
            },
        }
        i = i + 1;
    }
    assert(all.take(all.len() as int) =~= all);
    kept
}

/// The facts of a reply, given what its objects hold and what the whole of it holds.
/// Where the objects give no fact, the whole may.
pub open spec fn reply_facts(values: Seq<Option<Json>>, whole: Option<Json>) -> Seq<Fact> {
    let found = objects_facts(values);
    sanitized(
        if found.len() == 0 {
            whole_facts(whole)
        } else {
            found
        },
    )
}

/// Gathers the facts of a reply, given what its objects hold and what the whole of it
/// holds.
pub fn collect_reply_facts(values: &Vec<Option<JsonData>>, whole: &Option<JsonData>) -> (r: Vec<
    LlmConversationFact,
>)
    ensures
        r.deep_view() == reply_facts(values.deep_view(), whole.deep_view()),
{
    let ghost all = values.deep_view();
    let mut found: Vec<LlmConversationFact> = Vec::new();
    let mut i: usize = 0;
    assert(all.take(0) =~= seq![]);
    assert(found.deep_view() =~= seq![]);
    while i < values.len()
        invariant
            i <= values.len(),
            all == values.deep_view(),
            found.deep_view() == objects_facts(all.take(i as int)),
        decreases values.len() - i,
    {
        assert(all.take(i + 1).drop_last() =~= all.take(i as int));
        assert(all.take(i + 1).last() == values@[i as int].deep_view());
        let ghost before = found.deep_view();
        let mut more = facts_of_object(&values[i]);
        let ghost added = more.deep_view();
        found.append(&mut more);
        assert(found.deep_view() =~= before + added);
        i = i + 1;
    }
    assert(all.take(all.len() as int) =~= all);
    if found.len() == 0 {
        assert(found.deep_view().len() == 0);
        sanitize_facts(facts_of_whole(whole))
    } else {
        assert(found.deep_view().len() > 0);
        sanitize_facts(found)
    }
}

/// The text of a reply that facts are read from.
pub open spec fn bare_reply(output: Seq<char>) -> Seq<char> {
    trimmed(unfenced(output))
}

/// What the objects of a reply hold.
pub open spec fn parsed_objects(text: Seq<char>) -> Seq<Option<Json>> {
    Seq::new(objects(text).len(), |i: int| parsed(objects(text)[i]))
}

fn read_json(text: &str) -> (r: Option<JsonData>)
    ensures
        r.deep_view() == parsed(text@),
        is_finite_reading(r.deep_view()),
{
    match parse_value(text) {
        Some(value) => Some(data_of(&value)),
        None => None,
    }
}

/// Reads the facts out of the reply of a fact extraction. Each of them is tidy and has an
/// importance from zero to one.
pub fn parse_fact_extraction_response(output: &str) -> (r: Vec<LlmConversationFact>)
    ensures
        r.deep_view() == reply_facts(
            parsed_objects(bare_reply(output@)),
            parsed(bare_reply(output@)),
        ),
        forall|i: int|
            0 <= i < r.deep_view().len() ==> is_tidy(#[trigger] r.deep_view()[i])
                && !r.deep_view()[i].importance.is_nan(),
{
    let unwrapped = strip_code_fences(output);
    let cleaned = trim(unwrapped.as_str());
    let candidates = extract_json_objects(cleaned);
    let mut values: Vec<Option<JsonData>> = Vec::new();
    let mut i: usize = 0;
    while i < candidates.len()
        invariant
            i <= candidates.len(),
            candidates.deep_view() == objects(cleaned@),
            values.deep_view() == parsed_objects(cleaned@).take(i as int),
            forall|k: int| 0 <= k < i ==> is_finite_reading(#[trigger] values.deep_view()[k]),
        decreases candidates.len() - i,
    {
        assert(candidates.deep_view()[i as int] == candidates@[i as int]@);
        let ghost before = values.deep_view();
        let value = read_json(candidates[i]);
        values.push(value);
        assert(values.deep_view() =~= before.push(value.deep_view()));
        assert(values.deep_view() =~= parsed_objects(cleaned@).take(i + 1));
        i = i + 1;
    }
    assert(values.deep_view() =~= parsed_objects(cleaned@));
    let whole = read_json(cleaned);
    proof {
        law_reply_facts_are_tidy(values.deep_view(), whole.deep_view());
    }
    collect_reply_facts(&values, &whole)
}

/// The fact that a text writes as a JSON object that has a member `fact`.
pub fn parse_single_fact_object(output: &str) -> (r: Option<LlmConversationFact>)
    ensures
        r.deep_view() == match parsed(output@) {
            Some(value) => single_fact(value),
            None => None,
        },
{
    match read_json(output) {
        Some(data) => decode_single_fact(&data),
        None => None,
    }
}

/// Whether a fact is as sanitizing leaves it. An importance that is no number stays so.
pub open spec fn is_tidy(fact: Fact) -> bool {
    &&& fact.fact.len() > 0
    &&& trimmed(fact.fact) == fact.fact
    &&& fact.expiry.len() > 0
    &&& trimmed(fact.expiry) == fact.expiry
    &&& fact.importance.is_nan() || 0 <= fact.importance.rank() <= ONE
}

proof fn lemma_tidied(fact: Fact)
    ensures
        tidied(fact) matches Some(tidy) ==> is_tidy(tidy) && tidied(tidy) == Some(tidy),
{
    law_trim_is_idempotent(fact.fact);
    law_trim_is_idempotent(fact.expiry);
    law_clamped_is_within_unit(fact.importance);
    reveal_strlit("unknown");
    assert(trimmed("unknown"@) == "unknown"@);
}

/// The facts that are left have a text and an expiry, neither with white space around it,
/// and an importance that is within zero and one or is no number.
pub proof fn law_sanitized_facts_are_tidy(facts: Seq<Fact>)
    ensures
        forall|i: int| 0 <= i < sanitized(facts).len() ==> is_tidy(#[trigger] sanitized(facts)[i]),
        sanitized(facts).len() <= facts.len(),
    decreases facts.len(),
{
    if facts.len() > 0 {
        law_sanitized_facts_are_tidy(facts.drop_last());
        lemma_tidied(facts.last());
    }
}

/// Whether what was read from a text, if anything was, holds finite numbers only.
pub open spec fn is_finite_reading(value: Option<Json>) -> bool {
    value matches Some(value) ==> has_finite_numbers(value)
}

proof fn lemma_finite_member(members: Seq<(Seq<char>, Json)>, key: Seq<char>)
    requires
        forall|i: int| 0 <= i < members.len() ==> has_finite_numbers((#[trigger] members[i]).1),
    ensures
        member_of(members, key) matches Some(found) ==> has_finite_numbers(found),
    decreases members.len(),
{
    if members.len() > 0 && members[0].0 != key {
        let rest = members.drop_first();
        assert forall|i: int| 0 <= i < rest.len() implies has_finite_numbers(
            (#[trigger] rest[i]).1,
        ) by {
            assert(rest[i] == members[i + 1]);
        }
        lemma_finite_member(rest, key);
    }
}

proof fn lemma_written_fact(value: Json)
    requires
        has_finite_numbers(value),
    ensures
        written_fact(value) matches Some(fact) ==> !fact.importance.is_nan(),
{
    match value {
        Json::Object(members) => {
            lemma_finite_member(members, "importance"@);
            if let Some(Json::Number(number)) = member(value, "importance"@) {
                law_finite_numbers_are_importances(number);
            }
        },
        Json::Array(items) => {
            if items.len() == 3 {
                assert(has_finite_numbers(items[1]));
                if let Json::Number(number) = items[1] {
                    law_finite_numbers_are_importances(number);
                }
            }
        },
        _ => {},
    }
}

proof fn lemma_written_facts(values: Seq<Json>)
    requires
        forall|i: int| 0 <= i < values.len() ==> has_finite_numbers(#[trigger] values[i]),
    ensures
        written_facts(values) matches Some(facts) ==> all_numbers(facts),
    decreases values.len(),
{
    if values.len() > 0 {
        let shorter = values.drop_last();
        assert forall|i: int| 0 <= i < shorter.len() implies has_finite_numbers(
            #[trigger] shorter[i],
        ) by {
            assert(shorter[i] == values[i]);
        }
        lemma_written_facts(shorter);
        lemma_written_fact(values.last());
    }
}

proof fn lemma_facts_of_value(value: Option<Json>)
    requires
        is_finite_reading(value),
    ensures
        all_numbers(object_facts(value)),
        all_numbers(whole_facts(value)),
{
    if let Some(value) = value {
        lemma_written_fact(value);
        if let Json::Object(members) = value {
            lemma_finite_member(members, "facts"@);
        }
        if let Some(Json::Array(items)) = member(value, "facts"@) {
            lemma_written_facts(items);
        }
    }
}

proof fn lemma_objects_facts(values: Seq<Option<Json>>)
    requires
        forall|i: int| 0 <= i < values.len() ==> is_finite_reading(#[trigger] values[i]),
    ensures
        all_numbers(objects_facts(values)),
    decreases values.len(),
{
    if values.len() > 0 {
        let shorter = values.drop_last();
        assert forall|i: int| 0 <= i < shorter.len() implies is_finite_reading(
            #[trigger] shorter[i],
        ) by {
            assert(shorter[i] == values[i]);
        }
        lemma_objects_facts(shorter);
        lemma_facts_of_value(values.last());
    }
}

proof fn lemma_sanitized_numbers(facts: Seq<Fact>)
    requires
        all_numbers(facts),
    ensures
        all_numbers(sanitized(facts)),
    decreases facts.len(),
{
    if facts.len() > 0 {
        let shorter = facts.drop_last();
        assert forall|i: int| 0 <= i < shorter.len() implies !(
        #[trigger] shorter[i]).importance.is_nan() by {
            assert(shorter[i] == facts[i]);
        }
        lemma_sanitized_numbers(shorter);
        assert(!facts[facts.len() - 1].importance.is_nan());
    }
}

/// The facts that a reply gives have a text and an expiry, neither with white space around
/// it, and an importance that is a number within zero and one.
pub proof fn law_reply_facts_are_tidy(values: Seq<Option<Json>>, whole: Option<Json>)
    requires
        forall|i: int| 0 <= i < values.len() ==> is_finite_reading(#[trigger] values[i]),
        is_finite_reading(whole),
    ensures
        forall|i: int|
            0 <= i < reply_facts(values, whole).len() ==> is_tidy(
                #[trigger] reply_facts(values, whole)[i],
            ) && !reply_facts(values, whole)[i].importance.is_nan(),
{
    let found = objects_facts(values);
    let facts = if found.len() == 0 {
        whole_facts(whole)
    } else {
        found
    };
    lemma_objects_facts(values);
    lemma_facts_of_value(whole);
    law_sanitized_facts_are_tidy(facts);
    lemma_sanitized_numbers(facts);
}

/// Sanitizing a second time changes nothing.
pub proof fn law_sanitizing_is_idempotent(facts: Seq<Fact>)
    ensures
        sanitized(sanitized(facts)) == sanitized(facts),
    decreases facts.len(),
{
    if facts.len() > 0 {
        law_sanitizing_is_idempotent(facts.drop_last());
        lemma_tidied(facts.last());
        let before = sanitized(facts.drop_last());
        match tidied(facts.last()) {
            Some(fact) => {
                assert(sanitized(facts) =~= before.push(fact));
                assert(before.push(fact).drop_last() =~= before);
                assert(sanitized(before.push(fact)) =~= before + seq![fact]);
            },
            None => {
                assert(sanitized(facts) =~= before);
            },
        }
    }
}

} // verus!
