use bevellm::bridge::{LlmRuntimeBridge, Sending, TurnOutcome, TurnStep};
use bevellm::calendar::{days_at, days_from_civil, days_since_epoch};
use bevellm::config::LlmRuntimeConfig;
use bevellm::extraction::{parse_fact_extraction_response, sanitize_facts};
use bevellm::facts::{
    fact_is_expired, fact_is_expired_on, merge_conversation_facts, merge_conversation_facts_on, trim_facts,
};
use bevellm::generation::dedupe_participants;
use bevellm::history::{
    append_conversation_chat, compact_conversation_state_on, expire_conversation_facts,
};
use bevellm::importance::Importance;
use bevellm::model::{LlmModel, LlmToolCallingMode};
use bevellm::objects::extract_json_objects;
use bevellm::reply::normalize_and_filter_tool_calls;
use bevellm::sessions::GenerationStep;
use bevellm::text::trim;
use bevellm::types::{
    LlmConversationFact, LlmConversationState, LlmRequest, LlmResponseMode, LlmToolCall,
    LlmToolDefinition, LlmTurn,
};
use serde_json::Value;
use std::time::{Duration, UNIX_EPOCH};

fn fact(text: &str, importance: f32, expiry: &str) -> LlmConversationFact {
    LlmConversationFact {
        fact: String::from(text),
        importance: Importance { bits: importance.to_bits() },
        expiry: String::from(expiry),
    }
}

fn request(conversation_id: Option<&str>, prompt: &str) -> LlmRequest {
    LlmRequest {
        agent: String::from("alpha"),
        conversation_id: conversation_id.map(String::from),
        world_override: None,
        prompt: String::from(prompt),
        response_mode: LlmResponseMode::StructuredJson,
        tools: Vec::new(),
    }
}

fn turn(conversation_id: Option<&str>, tool_calls: Vec<LlmToolCall>) -> LlmTurn {
    LlmTurn {
        agent: String::from("alpha"),
        conversation_id: conversation_id.map(String::from),
        response: String::from("done"),
        tool_calls,
    }
}

#[test]
fn trimming_a_text_twice_changes_nothing() {
    for text in ["", "  ", " a b ", "\u{3000}x\u{a0}", "\n\ty"] {
        assert_eq!(trim(trim(text)), trim(text));
    }
}

#[test]
fn months_follow_each_other() {
    let lengths = [31, 28, 31, 30, 31, 30, 31, 31, 30, 31, 30, 31];
    for year in [1600, 1899, 1900, 1970, 2000, 2023, 2024, 2100] {
        let leap = year % 4 == 0 && (year % 100 != 0 || year % 400 == 0);
        for month in 1..=12u32 {
            let mut length = lengths[month as usize - 1];
            if month == 2 && leap {
                length += 1;
            }
            let (next_year, next_month) = if month == 12 { (year + 1, 1) } else { (year, month + 1) };
            let first = days_from_civil(year, month, 1).unwrap();
            assert_eq!(days_from_civil(next_year, next_month, 1), Some(first + length));
            assert_eq!(days_from_civil(year, month, 28), Some(first + 27));
        }
    }
}

#[test]
fn seconds_are_counted_in_days() {
    assert_eq!(days_since_epoch(0), 0);
    assert_eq!(days_since_epoch(86_399), 0);
    assert_eq!(days_since_epoch(86_400), 1);
    assert_eq!(days_since_epoch(u64::MAX), 213_503_982_334_601);
}

#[test]
fn points_in_time_lie_on_days() {
    assert_eq!(days_at(UNIX_EPOCH), Some(0));
    assert_eq!(days_at(UNIX_EPOCH + Duration::from_millis(86_399_999)), Some(0));
    assert_eq!(days_at(UNIX_EPOCH + Duration::from_secs(86_400)), Some(1));
    assert_eq!(days_at(UNIX_EPOCH + Duration::from_secs(1_709_164_800)), Some(19_782));
    assert_eq!(days_at(UNIX_EPOCH - Duration::from_secs(1)), None);
}

#[test]
fn what_has_expired_stays_expired() {
    for expiry in ["1970-01-11", "unknown", "soon"] {
        let held = fact("a", 0.5, expiry);
        let mut was_expired = false;
        for day in 0..30 {
            let expired = fact_is_expired_on(&held, Some(day));
            assert!(expired || !was_expired);
            was_expired = expired;
        }
    }
}

#[test]
fn trimming_facts_twice_changes_nothing() {
    let mut facts = (0..40)
        .map(|n| fact(&format!("fact {}", n * 7 % 40), ((n * 13) % 10) as f32 / 10.0, "unknown"))
        .collect::<Vec<_>>();
    let everything = facts.clone();
    trim_facts(&mut facts);
    assert_eq!(facts.len(), 24);
    assert!(facts.iter().all(|fact| everything.contains(fact)));
    let mut again = facts.clone();
    trim_facts(&mut again);
    assert_eq!(again, facts);
}

#[test]
fn merged_facts_are_represented_once() {
    let mut stored = vec![fact("The bridge is held", 0.5, "unknown"), fact("Dusk", 0.25, "unknown")];
    for text in ["THE BRIDGE IS HELD", "the bridge is held", "Dawn"] {
        merge_conversation_facts(&mut stored, vec![fact(text, 0.5, "unknown")]);
        let same = stored.iter().filter(|held| held.fact.eq_ignore_ascii_case(text)).count();
        assert_eq!(same, 1);
    }
    assert_eq!(stored.len(), 3);
    merge_conversation_facts_on(&mut stored, vec![fact("dawn", 0.125, "unknown")], None);
    assert!(stored.iter().any(|held| held.fact == "Dawn"));
}

#[test]
fn sanitizing_facts_twice_changes_nothing() {
    let once = sanitize_facts(vec![fact(" A ", 7.0, "  "), fact("", 0.5, "x"), fact("B", -1.0, " y ")]);
    assert_eq!(once, vec![fact("A", 1.0, "unknown"), fact("B", 0.0, "y")]);
    assert_eq!(sanitize_facts(once.clone()), once);
}

#[test]
fn facts_of_a_reply_have_an_importance_from_zero_to_one() {
    let numbers = [
        ("0", 0.0),
        ("-0.0", -0.0),
        ("1e300", 1.0),
        ("-1e300", 0.0),
        ("18446744073709551615", 1.0),
        ("-9223372036854775808", 0.0),
        ("5e-324", 0.0),
        ("0.375", 0.375f32),
    ];
    for (number, expected) in numbers {
        let reply =
            format!("{{\"fact\":\"A\",\"importance\":{number},\"expiry\":\"unknown\"}}");
        assert_eq!(parse_fact_extraction_response(&reply), vec![fact("A", expected, "unknown")]);
    }
    let endless = "{\"fact\":\"A\",\"importance\":1e999,\"expiry\":\"unknown\"}";
    assert!(parse_fact_extraction_response(endless).is_empty());
}

#[test]
fn dates_before_1970_have_expired_and_dates_far_ahead_have_not() {
    assert!(fact_is_expired(&fact("a", 0.5, "1969-12-31")));
    assert!(!fact_is_expired(&fact("a", 0.5, "9999-12-31")));
    let mut thread = LlmConversationState::default();
    thread.facts = vec![fact("past", 0.5, "1969-12-31"), fact("ahead", 0.5, "9999-12-31")];
    expire_conversation_facts(&mut thread);
    assert_eq!(thread.facts, vec![fact("ahead", 0.5, "9999-12-31")]);
}

#[test]
fn compacting_twice_changes_nothing() {
    let mut thread = LlmConversationState::default();
    for line in 0..20 {
        append_conversation_chat(&mut thread, String::from("a"), format!("{line}"), true);
    }
    thread.facts = (0..30).map(|n| fact(&format!("{n}"), 0.5, "unknown")).collect();
    thread.processed_entry_count = 10;
    compact_conversation_state_on(&mut thread, Some(20_000));
    assert_eq!((thread.entries.len(), thread.facts.len()), (12, 24));
    assert_eq!(thread.processed_entry_count, 2);
    let once = thread.clone();
    compact_conversation_state_on(&mut thread, Some(20_000));
    assert_eq!(thread, once);
}

#[test]
fn objects_hold_no_more_than_themselves() {
    let reply = "a {\"b\": {\"c\": \"}\"}} d {} } { e";
    for object in extract_json_objects(reply) {
        assert!(object.starts_with('{') && object.ends_with('}'));
        assert_eq!(extract_json_objects(object), [object]);
    }
}

#[test]
fn resolving_and_validating_twice_changes_nothing() {
    for model in [LlmModel::SmolLM2_360MInstruct, LlmModel::SmolLM3_3BQ4KM] {
        for mode in [LlmToolCallingMode::Auto, LlmToolCallingMode::Python] {
            let resolved = mode.resolve_for_model(model);
            assert_eq!(resolved.resolve_for_model(model), resolved);
        }
    }
    let mut config = LlmRuntimeConfig::default();
    config.profiles[0].id = String::from("  default ");
    config.profiles[0].worker_count = 0;
    let once = config.validate().unwrap();
    let again = LlmRuntimeConfig { profiles: once.profiles.clone(), routing: once.routing.clone() }
        .validate()
        .unwrap();
    assert_eq!(again.profiles, once.profiles);
    assert!(once.turn_generation_tool_calling().is_ok());
}

#[test]
fn settling_tool_calls_twice_changes_nothing() {
    let tool = |name: &str| {
        LlmToolDefinition::new(String::from(name), String::new(), Value::Null)
    };
    let calls = ["a", "tool", "b", "name"]
        .map(|name| LlmToolCall { tool: String::from(name), arguments: Value::Null })
        .to_vec();
    for tools in [vec![], vec![tool("a")], vec![tool("a"), tool("name")]] {
        for mode in [LlmResponseMode::StructuredJson, LlmResponseMode::PlainTextChat] {
            let once =
                normalize_and_filter_tool_calls(turn(None, calls.clone()), mode, &tools);
            let again = normalize_and_filter_tool_calls(once.clone(), mode, &tools);
            assert_eq!(again, once);
        }
    }
}

#[test]
fn participants_are_kept_once_in_order() {
    let ids = ["b", "a", "b", "c", "a"].map(String::from).to_vec();
    let once = dedupe_participants(ids);
    assert_eq!(once, ["b", "a", "c"]);
    assert_eq!(dedupe_participants(once.clone()), once);
}

#[test]
fn stateless_requests_leave_the_bridge_as_it_was() {
    let mut bridge = LlmRuntimeBridge::new(LlmToolCallingMode::Native);
    bridge.append_conversation_message(
        String::from("alpha"),
        String::from("t"),
        String::from("hello"),
    );
    let mut untouched = LlmRuntimeBridge::new(LlmToolCallingMode::Native);
    untouched.append_conversation_message(
        String::from("alpha"),
        String::from("t"),
        String::from("hello"),
    );
    let asked = request(None, "ask");
    assert!(matches!(bridge.send(request(None, "ask")), Sending::Forward(_)));
    bridge.start_request(&asked, Some(20_000));
    assert!(matches!(
        bridge.after_turn(&asked, TurnOutcome::Generated(turn(None, Vec::new()))),
        TurnStep::Deliver(_)
    ));
    assert!(bridge.release_next_conversation_request(&turn(None, Vec::new())).is_none());
    assert_eq!(bridge, untouched);
}

#[test]
fn every_running_request_has_a_token_of_its_own() {
    let mut bridge = LlmRuntimeBridge::new(LlmToolCallingMode::Native);
    let mut tokens = Vec::new();
    for thread in ["a", "b", "a"] {
        bridge.send(request(Some(thread), "ask"));
        let start = bridge.start_request(&request(Some(thread), "ask"), None);
        tokens.extend(start.cancel);
        match bridge.send(request(Some(thread), "newer")) {
            Sending::Park { cancel } => assert_eq!(cancel, start.cancel),
            other => panic!("unexpected sending: {other:?}"),
        }
        bridge.release_next_conversation_request(&turn(Some(thread), Vec::new()));
    }
    for _ in 0..2 {
        match bridge.generate_conversation(
            String::from("s"),
            vec![String::from("alpha")],
            String::from("hello"),
            Vec::new(),
        ) {
            GenerationStep::Start { request, .. } => {
                tokens.push(bridge.start_generated_request(&request).1);
            }
            other => panic!("unexpected step: {other:?}"),
        }
    }
    assert_eq!(tokens, [0, 1, 2, 3, 4]);
}
