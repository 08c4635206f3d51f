use bevellm::actions::{
    plan_actions, ActionAttributes, ActionField, ActionFields, ActionPlanError, ActionVariant,
    AttributeItem, ItemValue,
};
use bevellm::calendar::{current_utc_days_since_epoch, days_from_civil, parse_expiry_days};
use bevellm::facts::{fact_is_expired, fact_is_expired_on, trim_facts};
use bevellm::importance::Importance;
use bevellm::json::{
    data_of, find_member, find_text, format_json, parse_value, parse_value_or_text,
    resolve_schema_ref, JsonData, JsonNumber,
};
use bevellm::naming::{doc_string, humanize_ident, to_snake_case};
use bevellm::objects::{extract_json_objects, strip_code_fences};
use bevellm::schema::{format_schema_guide, join_schema_path, schema_fits, schema_guide_within};
use bevellm::table::Table;
use bevellm::text::{
    comes_before, decimal_text, eq_ignore_ascii_case, join, split_once, starts_with, strip_prefix,
    strip_suffix, trim, white_space,
};
use bevellm::types::LlmConversationFact;
use serde_json::Value;

fn json(text: &str) -> Value {
    serde_json::from_str(text).unwrap()
}

fn fact(text: &str, importance: f32, expiry: &str) -> LlmConversationFact {
    LlmConversationFact {
        fact: String::from(text),
        importance: Importance { bits: importance.to_bits() },
        expiry: String::from(expiry),
    }
}

#[test]
fn white_space_is_that_of_unicode() {
    for code in 0..=0x10_ffffu32 {
        if let Some(c) = char::from_u32(code) {
            assert_eq!(white_space(c), c.is_whitespace(), "{code:x}");
        }
    }
}

#[test]
fn text_operations_agree_with_those_of_strings() {
    let texts = [
        "", " ", "a", " a ", "\u{a0}a\u{3000}", "ab", "ba", "aXbXc", "XX", "\u{e9}x\u{2019}",
        "Unknown", "unknown", "\u{2028}", "a-b-c", "```", "z\u{10ffff}",
    ];
    for a in texts {
        assert_eq!(trim(a), a.trim());
        for b in texts {
            assert_eq!(starts_with(a, b), a.starts_with(b));
            assert_eq!(strip_prefix(a, b), a.strip_prefix(b));
            assert_eq!(strip_suffix(a, b), a.strip_suffix(b));
            assert_eq!(split_once(a, b), a.split_once(b));
            assert_eq!(comes_before(a, b), a < b);
            assert_eq!(eq_ignore_ascii_case(a, b), a.eq_ignore_ascii_case(b));
        }
    }
    let parts = ["a", "", "b"].map(String::from);
    assert_eq!(join(&parts, ", "), parts.join(", "));
    assert_eq!(join(&[], ", "), "");
    for n in [0usize, 7, 10, 99, 100, 1234567890, usize::MAX] {
        assert_eq!(decimal_text(n), n.to_string());
    }
}

#[test]
fn importance_is_written_as_single_precision_numbers_are() {
    let mut bits: u32 = 0;
    for _ in 0..20_000 {
        bits = bits.wrapping_mul(1_664_525).wrapping_add(1_013_904_223);
        let value = f32::from_bits(bits);
        if value.is_finite() && value.abs() < 1.0e9 {
            assert_eq!(Importance { bits }.two_decimals(), format!("{value:.2}"));
        }
    }
    for hundredths in 0..=1000u32 {
        let value = hundredths as f32 / 1000.0;
        assert_eq!(
            Importance { bits: value.to_bits() }.two_decimals(),
            format!("{value:.2}")
        );
    }
    for value in [f32::NAN, f32::INFINITY, f32::NEG_INFINITY, -0.0, f32::MAX, f32::MIN_POSITIVE] {
        assert_eq!(
            Importance { bits: value.to_bits() }.two_decimals(),
            format!("{value:.2}")
        );
    }
}

#[test]
fn importance_is_rounded_as_casts_do() {
    let mut state: u64 = 1;
    for _ in 0..50_000 {
        state = state.wrapping_mul(6_364_136_223_846_793_005).wrapping_add(1);
        let double = f64::from_bits(state);
        if !double.is_nan() {
            assert_eq!(Importance::of_double(state).bits, (double as f32).to_bits());
        }
        let whole = state >> (state % 64);
        assert_eq!(Importance::of_integer(whole, false).bits, (whole as f32).to_bits());
        assert_eq!(Importance::of_integer(whole, true).bits, (-(whole as f32)).to_bits());
    }
    for double in [0.0, -0.0, 0.85, 1.0e-40, 1.0e-46, 3.5e38, f64::INFINITY, 1.0e300, 7.0e-46] {
        assert_eq!(
            Importance::of_double(f64::to_bits(double)).bits,
            (double as f32).to_bits()
        );
    }
    assert!(Importance::of_double(f64::NAN.to_bits()).not_a_number());
}

#[test]
fn importance_is_ordered_and_clamped_as_numbers_are() {
    let values = [-1.0f32, -0.0, 0.0, 0.3, 1.0, 2.5, f32::INFINITY, f32::NAN, -1.0e-40];
    for a in values {
        let x = Importance { bits: a.to_bits() };
        if !a.is_nan() {
            assert_eq!(x.clamp_to_unit().bits, a.clamp(0.0, 1.0).to_bits());
        }
        for b in values {
            let y = Importance { bits: b.to_bits() };
            assert_eq!(x.at_least(y), a >= b);
            assert_eq!(x.exceeds(y), a > b);
        }
    }
}

#[test]
fn days_are_counted_from_1970() {
    assert_eq!(days_from_civil(1970, 1, 1), Some(0));
    assert_eq!(days_from_civil(1969, 12, 31), Some(-1));
    assert_eq!(days_from_civil(2000, 2, 29), Some(11_016));
    assert_eq!(days_from_civil(2000, 3, 1), Some(11_017));
    assert_eq!(days_from_civil(2024, 2, 29), Some(19_782));
    assert_eq!(days_from_civil(-1, 3, 1), Some(-719_834));
    assert_eq!(days_from_civil(2024, 13, 1), None);
    assert_eq!(days_from_civil(2024, 0, 1), None);
    assert_eq!(days_from_civil(2024, 4, 31), None);
    assert_eq!(days_from_civil(2024, 4, 0), None);
    assert_eq!(days_from_civil(2001, 2, 29), None);
    assert_eq!(days_from_civil(2023, 2, 29), days_from_civil(2023, 3, 1));
}

#[test]
fn expiry_dates_are_the_first_ten_characters() {
    assert_eq!(parse_expiry_days("1970-01-02"), Some(1));
    assert_eq!(parse_expiry_days("1970-01-02T10:00:00Z"), Some(1));
    assert_eq!(parse_expiry_days("+970-+1-+1"), days_from_civil(970, 1, 1));
    assert_eq!(parse_expiry_days("123456-1-1"), days_from_civil(123_456, 1, 1));
    assert_eq!(parse_expiry_days("1970-01-1"), None);
    assert_eq!(parse_expiry_days("1970/01/02"), None);
    assert_eq!(parse_expiry_days("1970-1-1-1"), None);
    assert_eq!(parse_expiry_days("-970-01-01"), None);
    assert_eq!(parse_expiry_days("1970-01-\u{e9}1"), None);
    assert_eq!(parse_expiry_days("19 0-01-01"), None);
}

#[test]
fn facts_expire_after_their_last_day() {
    let held = fact("a", 0.5, " 1970-01-11 ");
    assert!(!fact_is_expired_on(&held, Some(10)));
    assert!(fact_is_expired_on(&held, Some(11)));
    assert!(fact_is_expired_on(&held, None));
    assert!(fact_is_expired(&held));
    assert!(!fact_is_expired(&fact("a", 0.5, " UNKNOWN ")));
    assert!(!fact_is_expired(&fact("a", 0.5, "999999-1-1")));
    assert!(current_utc_days_since_epoch().unwrap() > 20_000);
}

#[test]
fn ranking_is_stable() {
    let mut facts = vec![
        fact("b", 0.5, "first"),
        fact("a", 0.5, "second"),
        fact("b", 0.5, "third"),
        fact("c", 0.75, "fourth"),
    ];
    trim_facts(&mut facts);
    let order = facts.iter().map(|fact| fact.expiry.as_str()).collect::<Vec<_>>();
    assert_eq!(order, ["fourth", "second", "first", "third"]);
}

#[test]
fn objects_are_found_with_their_braces() {
    let found = |text: &'static str| extract_json_objects(text);
    assert_eq!(found("x {\"a\":{}} y } {b}"), ["{\"a\":{}}", "{b}"]);
    assert_eq!(found("{\"}\\\"{\"}"), ["{\"}\\\"{\"}"]);
    assert_eq!(found("\"{\" {}"), ["{}"]);
    assert_eq!(found("{\"\u{e9}\":1}\u{2019}{}"), ["{\"\u{e9}\":1}", "{}"]);
    assert!(found("{ never closed").is_empty());
    assert!(found("").is_empty());
    for object in found("{a{b}c} {\"x\": \"{\"}") {
        assert_eq!(extract_json_objects(object), [object]);
    }
}

#[test]
fn code_fences_are_taken_off() {
    assert_eq!(strip_code_fences(" ```json\n{}\n``` "), "{}");
    assert_eq!(strip_code_fences("```\nx"), "x");
    assert_eq!(strip_code_fences("x```"), "x");
    assert_eq!(strip_code_fences("x"), "x");
    assert_eq!(strip_code_fences("```"), "");
}

#[test]
fn values_are_read_and_written() {
    let value = json("{\"b\":[1,-2,0.5,\"t\",null,true],\"a\":{}}");
    let data = data_of(&value);
    assert_eq!(
        find_member(&data, "b"),
        Some(&JsonData::Array(vec![
            JsonData::Number(JsonNumber::Whole(1)),
            JsonData::Number(JsonNumber::Negative(-2)),
            JsonData::Number(JsonNumber::Double(0.5f64.to_bits())),
            JsonData::Text(String::from("t")),
            JsonData::Null,
            JsonData::Bool(true),
        ]))
    );
    assert_eq!(find_member(&data, "a"), Some(&JsonData::Object(Vec::new())));
    assert_eq!(find_member(&data, "c"), None);
    assert_eq!(find_text(&data, "a"), None);
    assert_eq!(find_text(&data_of(&json("{\"x\":\"y\"}")), "x"), Some("y"));
    assert_eq!(format_json(&json("{\"a\":1}")), "{\n  \"a\": 1\n}");
    assert_eq!(parse_value("[1]"), Some(json("[1]")));
    assert_eq!(parse_value("[1"), None);
    assert_eq!(parse_value_or_text("[1"), Value::String(String::from("[1")));
    assert_eq!(parse_value_or_text("[1]"), json("[1]"));
    assert_eq!(
        resolve_schema_ref(&json("{\"d\":{\"e/f\":3}}"), "#/d/e~1f"),
        Some(JsonData::Number(JsonNumber::Whole(3)))
    );
    assert_eq!(resolve_schema_ref(&value, "/b"), None);
    assert_eq!(resolve_schema_ref(&json("1"), "#"), Some(data_of(&json("1"))));
    assert_eq!(resolve_schema_ref(&value, "#b"), None);
}

#[test]
fn schema_guides_follow_properties_items_and_references() {
    let schema = json(
        "{\"description\":\"Root.\",
          \"properties\":{
            \"hp\":{\"description\":\"Hit points.\"},
            \"pack\":{\"items\":{\"description\":\"One item.\",\"properties\":{\"id\":{\"description\":\"Its id.\"}}}},
            \"pair\":{\"items\":[{\"description\":\"Left.\"},{\"description\":\"Right.\"}]},
            \"unit\":{\"$ref\":\"#/definitions/Unit\",\"description\":\"Ignored.\"}},
          \"definitions\":{\"Unit\":{\"description\":\"A unit.\"}}}",
    );
    let guide = "- hp: Hit points.\n- pack[]: One item.\n- pack[].id: Its id.\n- pair[]: Left.\n- pair[]: Right.\n- unit: A unit.";
    assert_eq!(format_schema_guide(&schema), guide);
    assert_eq!(schema_guide_within(&schema, 4).as_deref(), Some(guide));
    assert!(!schema_fits(&schema, 3));
    assert_eq!(schema_guide_within(&schema, 3), None);
    assert_eq!(format_schema_guide(&json("{}")), "No field descriptions available.");
    assert_eq!(
        format_schema_guide(&json("{\"items\":{\"description\":\"Element.\"}}")),
        "- []: Element."
    );
    let circle = json("{\"properties\":{\"a\":{\"$ref\":\"#/properties/a\"}}}");
    assert_eq!(format_schema_guide(&circle), "No field descriptions available.");
    assert_eq!(join_schema_path("", "a"), "a");
    assert_eq!(join_schema_path("a", "b"), "a.b");
}

#[test]
fn names_become_words() {
    assert_eq!(humanize_ident("SpawnEnemy"), "spawn enemy");
    assert_eq!(humanize_ident("max_hp"), "max hp");
    assert_eq!(humanize_ident("HTTPServer2Go"), "httpserver2 go");
    assert_eq!(humanize_ident("_lead__ing_"), "lead  ing");
    assert_eq!(humanize_ident("a\u{c9}t\u{e9}"), "a \u{e9}t\u{e9}");
    assert_eq!(humanize_ident("\u{130}x"), "i\u{307}x");
    assert_eq!(humanize_ident("x\u{b2}Y"), "x\u{b2} y");
}

#[test]
fn names_become_snake_case() {
    assert_eq!(to_snake_case("SpawnEnemy"), "spawn_enemy");
    assert_eq!(to_snake_case("HTTPServer"), "http_server");
    assert_eq!(to_snake_case("Add2Gold"), "add2_gold");
    assert_eq!(to_snake_case("__A__b_"), "a_b");
    assert_eq!(to_snake_case("already_snake"), "already_snake");
    assert_eq!(to_snake_case("\u{c9}t\u{e9}Froid"), "\u{e9}t\u{e9}_froid");
    assert_eq!(to_snake_case("___"), "");
}

fn attributes(llm: &[&[(&str, Option<&str>)]], docs: &[&str]) -> ActionAttributes {
    ActionAttributes {
        llm: llm
            .iter()
            .map(|items| {
                items
                    .iter()
                    .map(|(name, value)| AttributeItem {
                        name: String::from(*name),
                        value: value
                            .map_or(ItemValue::Bare, |text| ItemValue::Text(String::from(text))),
                    })
                    .collect()
            })
            .collect(),
        docs: docs.iter().map(|line| String::from(*line)).collect(),
    }
}

#[test]
fn actions_become_tools() {
    let variants = vec![
        ActionVariant {
            name: String::from("SpawnEnemy"),
            attributes: attributes(&[], &[" Spawn a new enemy", "", " in the world. "]),
            fields: ActionFields::Named(vec![
                ActionField {
                    name: String::from("x_pos"),
                    attributes: attributes(&[&[("rename", Some("x"))]], &[]),
                },
                ActionField {
                    name: String::from("y"),
                    attributes: attributes(&[&[("description", Some("Y."))]], &["Why."]),
                },
            ]),
        },
        ActionVariant {
            name: String::from("ToggleDebug"),
            attributes: attributes(
                &[
                    &[("hidden", None), ("name", Some("debug")), ("other", Some("z"))],
                    &[("name", Some("late"))],
                ],
                &[],
            ),
            fields: ActionFields::Unit,
        },
    ];
    let plans = plan_actions(true, "DemoAction", &variants).unwrap();
    assert_eq!(plans[0].tool_name, "spawn_enemy");
    assert_eq!(plans[0].description, "Spawn a new enemy in the world.");
    assert_eq!(plans[0].tool_type, "__llm_actions_DemoAction_SpawnEnemy");
    assert_eq!(plans[0].arguments_type, "__llm_actions_DemoAction_SpawnEnemy_args");
    assert_eq!(plans[0].arguments[0].rename, "x");
    assert_eq!(plans[0].arguments[0].description, "x pos");
    assert_eq!(plans[0].arguments[1].rename, "y");
    assert_eq!(plans[0].arguments[1].description, "Y.");
    assert_eq!(plans[1].tool_name, "debug");
    assert_eq!(plans[1].description, "toggle debug tool");
    assert!(plans[1].arguments.is_empty());

    assert_eq!(plan_actions(false, "X", &variants), Err(ActionPlanError::NotAnEnum));
    let unnamed = vec![ActionVariant {
        name: String::from("Bad"),
        attributes: attributes(&[], &[]),
        fields: ActionFields::Unnamed,
    }];
    let error = plan_actions(true, "X", &unnamed).unwrap_err();
    assert_eq!(error, ActionPlanError::UnnamedFields(0));
    assert_eq!(
        error.message(),
        "LLMActions currently supports only unit and named-field variants"
    );
    assert_eq!(
        ActionPlanError::NotAnEnum.message(),
        "LLMActions can only be derived for enums"
    );
    assert_eq!(doc_string(&[String::from("  ")]), None);
}

#[test]
fn attribute_items_behind_another_value_are_not_read() {
    let variant = |items: &[(&str, Option<&str>)]| ActionVariant {
        name: String::from("Go"),
        attributes: attributes(&[items], &[]),
        fields: ActionFields::Unit,
    };
    let plans = plan_actions(
        true,
        "X",
        &vec![
            variant(&[("description", Some("d")), ("name", Some("n"))]),
            variant(&[("name", Some("n")), ("name", Some("m"))]),
            variant(&[("name", Some("n")), ("name", None)]),
        ],
    )
    .unwrap();
    assert_eq!(plans[0].tool_name, "go");
    assert_eq!(plans[0].description, "d");
    assert_eq!(plans[1].tool_name, "m");
    assert_eq!(plans[2].tool_name, "n");
}

#[test]
fn tables_hold_one_value_for_each_key() {
    let mut table: Table<String, u64> = Table::new();
    table.insert(String::from("a"), 1);
    table.insert(String::from("b"), 2);
    table.insert(String::from("a"), 3);
    assert_eq!(table.get(&String::from("a")), Some(&3));
    let mut keys = table.keys();
    keys.sort();
    assert_eq!(keys, ["a", "b"]);
    assert_eq!(table.remove(&String::from("a")), Some(3));
    assert_eq!(table.remove(&String::from("a")), None);
    assert!(!table.contains_key(&String::from("a")));
    assert!(table.contains_key(&String::from("b")));
}
