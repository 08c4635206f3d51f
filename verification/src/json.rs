//! JSON values: what a value of `serde_json` holds, as plain data that the library
//! reads.

use vstd::prelude::*;

verus! {

/// A JSON value of `serde_json`, carried as it is.
#[verifier::external_type_specification]
#[verifier::external_body]
pub struct ExJsonValue(serde_json::Value);

/// The reason why a text is no JSON value.
#[verifier::external_type_specification]
#[verifier::external_body]
pub struct ExJsonError(serde_json::Error);

/// A number of a JSON value.
#[derive(Debug, Clone, Copy, PartialEq, Eq, Structural)]
pub enum JsonNumber {
    /// A whole number that is not negative.
    Whole(u64),
    /// A negative whole number.
    Negative(i64),
    /// The bit pattern of a double-precision number.
    Double(u64),
}

/// What a JSON value holds.
#[derive(Debug, PartialEq, Eq)]
pub enum JsonData {
    Null,
    Bool(bool),
    Number(JsonNumber),
    Text(String),
    Array(Vec<JsonData>),
    /// The members in the order in which the object is walked.
    Object(Vec<(String, JsonData)>),
}

/// The mathematical counterpart of [`JsonData`].
pub enum Json {
    Null,
    Bool(bool),
    Number(JsonNumber),
    Text(Seq<char>),
    Array(Seq<Json>),
    Object(Seq<(Seq<char>, Json)>),
}

/// The value that the data stands for.
pub open spec fn json_of(data: JsonData) -> Json
    decreases data,
{
    match data {
        JsonData::Null => Json::Null,
        JsonData::Bool(flag) => Json::Bool(flag),
        JsonData::Number(number) => Json::Number(number),
        JsonData::Text(text) => Json::Text(text@),
        JsonData::Array(items) => Json::Array(
            Seq::new(
                items@.len(),
                |i: int|
                    if 0 <= i < items@.len() {
                        json_of(items@[i])
                    } else {
                        Json::Null
                    },
            ),
        ),
        JsonData::Object(members) => Json::Object(
            Seq::new(
                members@.len(),
                |i: int|
                    if 0 <= i < members@.len() {
                        (members@[i].0@, json_of(members@[i].1))
                    } else {
                        (seq![], Json::Null)
                    },
            ),
        ),
    }
}

impl DeepView for JsonData {
    type V = Json;

    open spec fn deep_view(&self) -> Json {
        json_of(*self)
    }
}

/// Whether a number is one: a double is neither infinite nor a pattern for no number.
pub open spec fn is_finite(number: JsonNumber) -> bool {
    number matches JsonNumber::Double(bits) ==> bits % 0x8000_0000_0000_0000
        < 0x7ff0_0000_0000_0000
}

/// Whether all numbers in a value are finite.
pub open spec fn has_finite_numbers(value: Json) -> bool
    decreases value,
{
    match value {
        Json::Number(number) => is_finite(number),
        Json::Array(items) => forall|i: int|
            0 <= i < items.len() ==> has_finite_numbers(#[trigger] items[i]),
        Json::Object(members) => forall|i: int|
            0 <= i < members.len() ==> has_finite_numbers((#[trigger] members[i]).1),
        _ => true,
    }
}

/// What a value of `serde_json` holds: its members and items, and theirs in turn.
pub uninterp spec fn content(value: serde_json::Value) -> Json;

/// What `serde_json::from_str` reads from a text that is a JSON value.
pub uninterp spec fn parsed(text: Seq<char>) -> Option<Json>;

/// What `serde_json::to_string_pretty` writes for a value, where it succeeds.
pub uninterp spec fn pretty(value: Json) -> Option<Seq<char>>;

/// What a value of `serde_json` displays as.
pub uninterp spec fn compact(value: Json) -> Seq<char>;

/// What a JSON pointer finds in a value.
pub uninterp spec fn pointed(value: Json, pointer: Seq<char>) -> Option<Json>;

/// Reads a text as a JSON value, by `serde_json::from_str`: whether the text is one,
/// and what it then holds, rests on the text alone.
#[verifier::external_body]
fn read_value(text: &str) -> (r: Result<serde_json::Value, serde_json::Error>)
    ensures
        match r {
            Ok(value) => parsed(text@) == Some(content(value)),
            Err(_) => parsed(text@) is None,
        },
{
    serde_json::from_str::<serde_json::Value>(text)
}

/// The outermost part of a `serde_json::Value`.
enum JsonShape<'a> {
    Null,
    Bool(bool),
    /// The number as each of its accessors gives it, a double by its bit pattern.
    Number { whole: Option<u64>, signed: Option<i64>, double: Option<u64> },
    Text(&'a String),
    Array(&'a Vec<serde_json::Value>),
    Object(Vec<(&'a String, &'a serde_json::Value)>),
}

/// The number that the accessors of a number give.
spec fn number_given(whole: Option<u64>, signed: Option<i64>, double: Option<u64>) -> JsonNumber {
    match (whole, signed, double) {
        (Some(n), _, _) => JsonNumber::Whole(n),
        (None, Some(n), _) => JsonNumber::Negative(n),
        (None, None, Some(bits)) => JsonNumber::Double(bits),
        (None, None, None) => JsonNumber::Whole(0),
    }
}

/// Takes a `serde_json::Value` apart: one variant for each of its own, a number as
/// `Number::as_u64`, `Number::as_i64` and `Number::as_f64` give it, and an object as the
/// list of members that `Map::iter` walks. A `Number` is always finite.
#[verifier::external_body]
fn shape<'a>(value: &'a serde_json::Value) -> (r: JsonShape<'a>)
    ensures
        content(*value) == match r {
            JsonShape::Null => Json::Null,
            JsonShape::Bool(flag) => Json::Bool(flag),
            JsonShape::Number { whole, signed, double } => Json::Number(
                number_given(whole, signed, double),
            ),
            JsonShape::Text(text) => Json::Text(text@),
            JsonShape::Array(items) => Json::Array(
                Seq::new(items@.len(), |i: int| content(items@[i])),
            ),
            JsonShape::Object(members) => Json::Object(
                Seq::new(members@.len(), |i: int| (members@[i].0@, content(*members@[i].1))),
            ),
        },
        r matches JsonShape::Number { double: Some(bits), .. } ==> is_finite(
            JsonNumber::Double(bits),
        ),
{
    match value {
        serde_json::Value::Null => JsonShape::Null,
        serde_json::Value::Bool(flag) => JsonShape::Bool(*flag),
        serde_json::Value::Number(number) => JsonShape::Number {
            whole: number.as_u64(),
            signed: number.as_i64(),
            double: number.as_f64().map(|x| x.to_bits()),
        },
        serde_json::Value::String(text) => JsonShape::Text(text),
        serde_json::Value::Array(items) => JsonShape::Array(items),
        serde_json::Value::Object(members) => JsonShape::Object(members.iter().collect()),
    }
}

/// Makes a JSON string, by the variant `serde_json::Value::String`.
#[verifier::external_body]
fn string_value(text: String) -> (r: serde_json::Value)
    ensures
        content(r) == Json::Text(text@),
{
    serde_json::Value::String(text)
}

/// Writes a value over several lines, by `serde_json::to_string_pretty`.
#[verifier::external_body]
fn write_pretty(value: &serde_json::Value) -> (r: Result<String, serde_json::Error>)
    ensures
        match r {
            Ok(text) => pretty(content(*value)) == Some(text@),
            Err(_) => pretty(content(*value)) is None,
        },
{
    serde_json::to_string_pretty(value)
}

/// Writes a value on one line, by the `Display` of `serde_json::Value`.
#[verifier::external_body]
fn write_compact(value: &serde_json::Value) -> (r: String)
    ensures
        r@ == compact(content(*value)),
{
    value.to_string()
}

/// Follows a JSON pointer, by `serde_json::Value::pointer`: the empty pointer finds
/// the value itself, and one that does not start with a slash finds nothing.
#[verifier::external_body]
fn follow<'a>(value: &'a serde_json::Value, pointer: &str) -> (r: Option<&'a serde_json::Value>)
    ensures
        match r {
            Some(found) => pointed(content(*value), pointer@) == Some(content(*found)),
            None => pointed(content(*value), pointer@) is None,
        },
        pointer@.len() == 0 ==> r == Some(value),
        pointer@.len() > 0 && pointer@[0] != '/' ==> r is None,
{
    value.pointer(pointer)
}

/// Cloning a `serde_json::Value` keeps what it holds.
pub assume_specification[ <serde_json::Value as Clone>::clone ](
    value: &serde_json::Value,
) -> (r: serde_json::Value)
    ensures
        content(r) == content(*value),
;

proof fn lemma_item_is_below(value: Json, i: int)
    requires
        value is Array,
        0 <= i < value->Array_0.len(),
    ensures
        decreases_to!(value => value->Array_0[i]),
{
    let items = value->Array_0;
    assert(decreases_to!(value => value->Array_0));
    assert(decreases_to!(items => items[i]));
}

proof fn lemma_member_is_below(value: Json, i: int)
    requires
        value is Object,
        0 <= i < value->Object_0.len(),
    ensures
        decreases_to!(value => value->Object_0[i].1),
{
    let members = value->Object_0;
    assert(decreases_to!(value => value->Object_0));
    assert(decreases_to!(members => members[i]));
    assert(decreases_to!(members[i] => members[i].1));
}

/// What a JSON value holds, as plain data.
pub fn data_of(value: &serde_json::Value) -> (r: JsonData)
    ensures
        r.deep_view() == content(*value),
        has_finite_numbers(r.deep_view()),
    decreases content(*value),
{
    match shape(value) {
        JsonShape::Null => JsonData::Null,
        JsonShape::Bool(flag) => JsonData::Bool(flag),
        JsonShape::Number { whole, signed, double } => JsonData::Number(
            match (whole, signed, double) {
                (Some(n), _, _) => JsonNumber::Whole(n),
                (None, Some(n), _) => JsonNumber::Negative(n),
                (None, None, Some(bits)) => JsonNumber::Double(bits),
                (None, None, None) => JsonNumber::Whole(0),
            },
        ),
        JsonShape::Text(text) => JsonData::Text(text.clone()),
        JsonShape::Array(items) => {
            let ghost held = content(*value)->Array_0;
            let mut data: Vec<JsonData> = Vec::new();
            let mut i: usize = 0;
            while i < items.len()
                invariant
                    i <= items.len(),
                    data.len() == i,
                    content(*value) == Json::Array(held),
                    held == Seq::new(items@.len(), |i: int| content(items@[i])),
                    forall|k: int| 0 <= k < i ==> json_of(#[trigger] data@[k]) == held[k],
                    forall|k: int| 0 <= k < i ==> has_finite_numbers(#[trigger] held[k]),
                decreases items.len() - i,
            {
                assert(held[i as int] == content(items@[i as int]));
                proof {
                    lemma_item_is_below(content(*value), i as int);
                }
                let item = data_of(&items[i]);
                data.push(item);
                i = i + 1;
            }
            let r = JsonData::Array(data);
            assert(json_of(r)->Array_0 =~= held);
            r
        },
        JsonShape::Object(members) => {
            let ghost held = content(*value)->Object_0;
            let mut data: Vec<(String, JsonData)> = Vec::new();
            let mut i: usize = 0;
            while i < members.len()
                invariant
                    i <= members.len(),
                    data.len() == i,
                    content(*value) == Json::Object(held),
                    held == Seq::new(
                        members@.len(),
                        |i: int| (members@[i].0@, content(*members@[i].1)),
                    ),
                    forall|k: int|
                        0 <= k < i ==> (#[trigger] data@[k]).0@ == held[k].0 && json_of(data@[k].1)
                            == held[k].1,
                    forall|k: int| 0 <= k < i ==> has_finite_numbers((#[trigger] held[k]).1),
                decreases members.len() - i,
            {
                assert(held[i as int] == (
                    members@[i as int].0@,
                    content(*members@[i as int].1),
                ));
                proof {
                    lemma_member_is_below(content(*value), i as int);
                }
                let member = data_of(members[i].1);
                data.push((members[i].0.clone(), member));
                i = i + 1;
            }
            let r = JsonData::Object(data);
            assert(json_of(r)->Object_0 =~= held);
            r
        },
    }
}

/// Reads a text as a JSON value.
pub fn parse_value(text: &str) -> (r: Option<serde_json::Value>)
    ensures
        r is Some <==> parsed(text@) is Some,
        r matches Some(value) ==> parsed(text@) == Some(content(value)),
{
    match read_value(text) {
        Ok(value) => Some(value),
        Err(_) => None,
    }
}

/// A text read as a JSON value, or as a JSON string where it is none.
pub open spec fn value_or_text(text: Seq<char>) -> Json {
    match parsed(text) {
        Some(value) => value,
        None => Json::Text(text),
    }
}

/// Reads a text as a JSON value, and takes it as a JSON string where it is none.
pub fn parse_value_or_text(text: &str) -> (r: serde_json::Value)
    ensures
        content(r) == value_or_text(text@),
{
    match read_value(text) {
        Ok(value) => value,
        Err(_) => string_value(text.to_string()),
    }
}

/// A value written over several lines, or on one line where that fails.
pub open spec fn formatted(value: Json) -> Seq<char> {
    match pretty(value) {
        Some(text) => text,
        None => compact(value),
    }
}

/// Writes a value over several lines, or on one line where that fails.
pub fn format_json(value: &serde_json::Value) -> (r: String)
    ensures
        r@ == formatted(content(*value)),
{
    match write_pretty(value) {
        Ok(text) => text,
        Err(_) => write_compact(value),
    }
}

/// The first member of that name among the members of an object.
pub open spec fn member_of(members: Seq<(Seq<char>, Json)>, key: Seq<char>) -> Option<Json>
    decreases members.len(),
{
    if members.len() == 0 {
        None
    } else if members[0].0 == key {
        Some(members[0].1)
    } else {
        member_of(members.drop_first(), key)
    }
}

/// The member of an object; nothing of a value that is no object.
pub open spec fn member(value: Json, key: Seq<char>) -> Option<Json> {
    match value {
        Json::Object(members) => member_of(members, key),
        _ => None,
    }
}

/// The text of a member that is a string.
pub open spec fn text_member(value: Json, key: Seq<char>) -> Option<Seq<char>> {
    match member(value, key) {
        Some(Json::Text(text)) => Some(text),
        _ => None,
    }
}

/// The member of an object; nothing of a value that is no object.
pub fn find_member<'a>(data: &'a JsonData, key: &str) -> (r: Option<&'a JsonData>)
    ensures
        r is Some <==> member(data.deep_view(), key@) is Some,
        r matches Some(found) ==> {
            &&& member(data.deep_view(), key@) == Some(found.deep_view())
            &&& decreases_to!(*data => *found)
        },
{
    match data {
        JsonData::Object(members) => {
            let ghost all = data.deep_view()->Object_0;
            let mut i: usize = 0;
            assert(all.skip(0) =~= all);
            while i < members.len()
                invariant
                    i <= members.len(),
                    data.deep_view() == Json::Object(all),
                    *data == JsonData::Object(*members),
                    all.len() == members.len(),
                    forall|k: int|
                        0 <= k < all.len() ==> #[trigger] all[k] == (
                            members@[k].0@,
                            json_of(members@[k].1),
                        ),
                    member_of(all, key@) == member_of(all.skip(i as int), key@),
                decreases members.len() - i,
            {
                let entry = &members[i];
                assert(all.skip(i as int)[0] == all[i as int]);
                if crate::text::same_text(entry.0.as_str(), key) {
                    return Some(&entry.1);
                }
                assert(all.skip(i as int).drop_first() =~= all.skip(i + 1));
                i = i + 1;
            }
            None
        },
        _ => None,
    }
}

/// The text of a member that is a string.
pub fn find_text<'a>(data: &'a JsonData, key: &str) -> (r: Option<&'a str>)
    ensures
        r is Some <==> text_member(data.deep_view(), key@) is Some,
        r matches Some(text) ==> text_member(data.deep_view(), key@) == Some(text@),
{
    match find_member(data, key) {
        Some(JsonData::Text(text)) => Some(text.as_str()),
        _ => None,
    }
}

/// What a reference of a schema finds in the schema's root: it is a `#` and a JSON
/// pointer.
pub open spec fn resolved(root: Json, reference: Seq<char>) -> Option<Json> {
    if reference.len() > 0 && reference[0] == '#' {
        pointed(root, reference.drop_first())
    } else {
        None
    }
}

/// Finds what a reference of a schema refers to.
pub fn resolve_schema_ref(root: &serde_json::Value, reference: &str) -> (r: Option<JsonData>)
    ensures
        r is Some <==> resolved(content(*root), reference@) is Some,
        r matches Some(found) ==> resolved(content(*root), reference@) == Some(found.deep_view()),
{
    proof {
        reveal_strlit("#");
    }
    match crate::text::strip_prefix(reference, "#") {
        Some(pointer) => {
            assert(reference@.take(1)[0] == reference@[0]);
            assert(reference@.skip(1) =~= reference@.drop_first());
            match follow(root, pointer) {
                Some(found) => Some(data_of(found)),
                None => None,
            }
        },
        None => {
            assert(reference@.len() > 0 && reference@[0] == '#' ==> reference@.take(1) =~= "#"@);
            None
        },
    }
}

} // verus!
