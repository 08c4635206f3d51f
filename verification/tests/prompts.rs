use bevellm::extraction::{parse_fact_extraction_response, parse_single_fact_object};
use bevellm::facts::merge_conversation_facts_on;
use bevellm::generation::{
    build_generated_conversation_prompt, empty_to_placeholder, world_display_name,
    world_string_field, ConversationGenerationRequest, ConversationParticipantProfile,
};
use bevellm::history::{
    append_conversation_chat, append_conversation_control, append_conversation_turn,
    begin_fact_refresh, compact_conversation_state, complete_fact_refresh,
    expire_conversation_facts, format_conversation_context, pending_fact_extraction_input,
    render_conversation_entry,
};
use bevellm::importance::Importance;
use bevellm::model::LlmToolCallingMode;
use bevellm::prompt::{
    build_fact_extraction_prompt_content, build_plain_text_chat_identity_preamble,
    build_plain_text_chat_prompt, build_plain_text_chat_response_preamble, chatml_message,
    expected_plain_text_chat_response_format, format_fact_memory, format_tool_block,
    render_plain_text_chat_entry,
};
use bevellm::reply::{
    normalize_and_filter_tool_calls, normalize_plain_text_chat_response,
    parse_mistral_tool_calls, strip_plain_text_chat_speaker_prefix, ModelMessage, ModelToolCall,
    ReplyCandidate, TurnFields,
};
use bevellm::table::Table;
use bevellm::tools::{exposes_tools, has_parameters, LLMActionError, LlmToolSet};
use bevellm::turn::{
    cancellation_outcome, check_cancelled, extraction_messages, finish_turn,
    turn_messages_within, TurnGenerationTask,
};
use bevellm::types::{
    LlmConversationEntry, LlmConversationEntryKind, LlmConversationFact, LlmConversationState,
    LlmResponseMode, LlmToolCall, LlmToolDefinition, LlmTurn, LlmWorldContext,
};
use serde_json::Value;
use std::sync::atomic::AtomicBool;

fn json(text: &str) -> Value {
    serde_json::from_str(text).unwrap()
}

fn demo_world() -> LlmWorldContext {
    LlmWorldContext {
        world_view: json(
            "{\"agent_name\": \"Commander Alpha\",
              \"persona\": \"Calm field commander who speaks with crisp urgency.\",
              \"current_goal\": \"Secure the bridge before the scout advances.\"}",
        ),
        world_schema: json("{}"),
    }
}

fn fact(text: &str, importance: f32, expiry: &str) -> LlmConversationFact {
    LlmConversationFact {
        fact: String::from(text),
        importance: Importance { bits: importance.to_bits() },
        expiry: String::from(expiry),
    }
}

fn tool(name: &str) -> LlmToolDefinition {
    LlmToolDefinition::new(
        String::from(name),
        format!("The {name} tool."),
        json("{\"type\":\"object\"}"),
    )
}

fn call(tool: &str) -> LlmToolCall {
    LlmToolCall { tool: String::from(tool), arguments: Value::Null }
}

fn turn(response: &str, tool_calls: Vec<LlmToolCall>) -> LlmTurn {
    LlmTurn {
        agent: String::from("agent_alpha"),
        conversation_id: None,
        response: String::from(response),
        tool_calls,
    }
}

fn chat(conversation: &mut LlmConversationState, speaker: &str, text: &str, extractable: bool) {
    append_conversation_chat(conversation, String::from(speaker), String::from(text), extractable);
}

#[test]
fn prompt_renderer_formats_chat_and_control_entries() {
    let mut conversation = LlmConversationState::default();
    chat(&mut conversation, "agent_bravo", "example text", true);
    append_conversation_control(&mut conversation, String::from("agent_charlie is now nearby."));

    assert_eq!(
        format_conversation_context(&conversation),
        "**agent_bravo**: example text\n[system] agent_charlie is now nearby."
    );
}

#[test]
fn plain_text_chat_renderer_uses_chatml_roles_by_speaker_perspective() {
    let world = demo_world();
    let mut speaker_labels = Table::new();
    speaker_labels.insert(String::from("agent_bravo"), String::from("Scout Bravo"));
    let own_entry = LlmConversationEntry {
        speaker: String::from("agent_alpha"),
        text: String::from("Hold here."),
        kind: LlmConversationEntryKind::Chat,
        extractable: true,
        sequence: 0,
    };
    let other_entry = LlmConversationEntry {
        speaker: String::from("agent_bravo"),
        text: String::from("Scout ahead."),
        kind: LlmConversationEntryKind::Chat,
        extractable: true,
        sequence: 1,
    };

    assert_eq!(
        render_plain_text_chat_entry(
            "agent_alpha",
            &own_entry,
            Some(&world),
            Some(&speaker_labels)
        ),
        "<|im_start|>assistant\n**Commander Alpha:** Hold here.<|im_end|>"
    );
    assert_eq!(
        render_plain_text_chat_entry(
            "agent_alpha",
            &other_entry,
            Some(&world),
            Some(&speaker_labels)
        ),
        "<|im_start|>user\n**Scout Bravo:** Scout ahead.<|im_end|>"
    );
}

#[test]
fn fact_extraction_reads_only_new_extractable_chat_entries() {
    let mut conversation = LlmConversationState::default();
    append_conversation_control(&mut conversation, String::from("session restarted"));
    chat(&mut conversation, "alpha", "I hid supplies in the shed.", true);
    append_conversation_turn(
        &mut conversation,
        "alpha",
        "Summarize the situation.",
        "We should wait.",
        &[],
    );

    assert_eq!(
        pending_fact_extraction_input(&conversation).as_deref(),
        Some("**alpha**: I hid supplies in the shed.")
    );

    conversation.processed_entry_count = conversation.entries.len();
    chat(&mut conversation, "bravo", "Meet at dusk.", true);
    append_conversation_control(&mut conversation, String::from("charlie is now nearby"));

    assert_eq!(
        pending_fact_extraction_input(&conversation).as_deref(),
        Some("**bravo**: Meet at dusk.")
    );
}

#[test]
fn expired_facts_are_removed_but_unknown_expiry_remains() {
    let mut conversation = LlmConversationState {
        facts: vec![
            fact("stale", 0.9, "2000-01-01"),
            fact("keep", 0.5, "unknown"),
            fact("bad", 0.4, "not-a-date"),
        ],
        ..Default::default()
    };

    expire_conversation_facts(&mut conversation);

    assert_eq!(conversation.facts.len(), 1);
    assert_eq!(conversation.facts[0].fact, "keep");
}

#[test]
fn compact_preserves_structured_entry_ordering_metadata() {
    let mut conversation = LlmConversationState::default();
    for idx in 0..16 {
        chat(&mut conversation, "alpha", &format!("line {idx}"), true);
    }

    compact_conversation_state(&mut conversation);

    assert_eq!(conversation.entries.len(), 12);
    assert_eq!(conversation.entries[0].kind, LlmConversationEntryKind::Chat);
    assert_eq!(conversation.entries[0].sequence, 4);
}

#[test]
fn plain_text_chat_identity_preamble_includes_name_persona_and_goal() {
    let world = demo_world();

    let preamble = build_plain_text_chat_identity_preamble("agent_alpha", Some(&world));

    assert!(preamble.contains("Preferred agent name: Commander Alpha"));
    assert!(preamble.contains("Persona: Calm field commander who speaks with crisp urgency."));
    assert!(preamble.contains("Current goal: Secure the bridge before the scout advances."));
    assert!(!preamble.contains("Agent id:"));
    assert_eq!(build_plain_text_chat_identity_preamble("agent_alpha", None), "");
}

#[test]
fn fact_extraction_prompt_excludes_goals_and_speculation() {
    let prompt = build_fact_extraction_prompt_content("**alpha**: Hold the bridge.", None);

    assert!(prompt.contains("Only extract facts that were explicitly stated"));
    assert!(prompt.contains("\"facts\":[{\"fact\":\"Alpha ordered the bridge held.\""));
    assert!(prompt.contains("Conversation updates:\n**alpha**: Hold the bridge."));
    assert!(!prompt.contains("World context:"));
}

#[test]
fn fact_extraction_parser_accepts_single_fact_object() {
    let facts = parse_fact_extraction_response(
        "{\"fact\":\"Alpha ordered the bridge held.\",\"importance\":0.85,\"expiry\":\"unknown\"}",
    );

    assert_eq!(facts.len(), 1);
    assert_eq!(facts[0].fact, "Alpha ordered the bridge held.");
    assert_eq!(facts[0].importance.bits, 0.85f32.to_bits());
}

#[test]
fn fact_extraction_parser_rejects_partial_fact_objects() {
    let facts = parse_fact_extraction_response(
        "{\n  \"importance\": 0.85,\n  \"expiry\": \"2023-12-31\"\n}",
    );

    assert!(facts.is_empty());
}

#[test]
fn plain_text_chat_prompt_requires_grounded_chat_or_silence() {
    let world = demo_world();

    let prompt = build_plain_text_chat_response_preamble(
        "agent_alpha",
        Some(&world),
        Some(&[String::from("agent_bravo")]),
    );

    assert!(prompt.contains("Preferred agent name: Commander Alpha"));
    assert!(prompt.contains("Persona: Calm field commander who speaks with crisp urgency."));
    assert!(prompt.contains("Current goal: Secure the bridge before the scout advances."));
    assert!(!prompt.contains("Agent id:"));
}

#[test]
fn plain_text_chat_output_contract_uses_expected_name_and_silent() {
    let world = demo_world();

    let speaker_format = expected_plain_text_chat_response_format("agent_alpha", Some(&world));

    assert_eq!(speaker_format, "**Commander Alpha:** {message}");
    assert!(speaker_format.contains("Commander Alpha"));
    assert_eq!(
        normalize_plain_text_chat_response("agent_alpha", Some(&world), "SILENT"),
        "SILENT"
    );
}

#[test]
fn plain_text_chat_output_contract_prefers_message_only_text() {
    let world = demo_world();
    let prompt = format!(
        "{}\nOutput contract:\nReply with message text only.\nDo not include your name, speaker label, markdown, or surrounding quotes.\nIf your reply would only repeat memory facts or restate something already said, reply exactly `SILENT`.\nIf you have nothing useful to say, reply exactly `SILENT`.\nAccepted legacy format: `{}`.\n",
        build_plain_text_chat_response_preamble(
            "agent_alpha",
            Some(&world),
            Some(&[String::from("agent_bravo")]),
        ),
        expected_plain_text_chat_response_format("agent_alpha", Some(&world))
    );

    assert!(prompt.contains("Reply with message text only."));
    assert!(prompt
        .contains("Do not include your name, speaker label, markdown, or surrounding quotes."));
    assert!(prompt.contains("If your reply would only repeat memory facts or restate something already said, reply exactly `SILENT`."));
    assert!(prompt.contains("If you have nothing useful to say, reply exactly `SILENT`."));
    assert!(prompt.contains("Accepted legacy format: `**Commander Alpha:** {message}`."));
    assert!(!prompt.contains("Memory facts:"));
}

#[test]
fn chat_system_prompts_ask_for_message_text_only() {
    let world = demo_world();
    let prompt = bevellm::prompt::build_turn_system_prompt(
        "agent_alpha",
        LlmResponseMode::PlainTextChat,
        &[],
        Some(&world),
        Some(&[String::from("agent_bravo")]),
        LlmToolCallingMode::Disabled,
    );

    assert!(prompt.contains("Reply with message text only."));
    assert!(prompt.contains("Accepted legacy format: `**Commander Alpha:** {message}`."));
    assert!(!prompt.contains("Memory facts:"));
    assert!(prompt.ends_with("`.\nNearby people: agent_bravo\n"));
}

#[test]
fn plain_text_chat_parser_accepts_agent_id_prefix() {
    let response =
        normalize_plain_text_chat_response("agent_alpha", None, "**agent_alpha**: Move left.");

    assert_eq!(response, "Move left.");
}

#[test]
fn plain_text_chat_parser_accepts_configured_agent_name_prefix() {
    let world = demo_world();
    let response = normalize_plain_text_chat_response(
        "agent_alpha",
        Some(&world),
        "**Commander Alpha**: Move left.",
    );

    assert_eq!(response, "Move left.");
}

#[test]
fn plain_text_chat_parser_treats_bare_bold_marker_as_silent() {
    let world = demo_world();

    assert_eq!(
        normalize_plain_text_chat_response("agent_alpha", Some(&world), "**"),
        "SILENT"
    );
}

#[test]
fn plain_text_chat_parser_accepts_colon_inside_bold_prefix() {
    let world = demo_world();
    let response = normalize_plain_text_chat_response(
        "agent_alpha",
        Some(&world),
        "**Commander Alpha:** Move left.",
    );

    assert_eq!(response, "Move left.");
}

#[test]
fn plain_text_chat_parser_falls_back_to_raw_text_when_prefix_is_malformed() {
    let response =
        normalize_plain_text_chat_response("agent_alpha", None, "**agent_alpha* Move left.");

    assert_eq!(response, "**agent_alpha* Move left.");
}

fn squad_request(facts: &[&str], scout_persona: &str) -> ConversationGenerationRequest {
    ConversationGenerationRequest {
        session_id: String::from("session-1"),
        generation: 1,
        participants: vec![String::from("alpha"), String::from("bravo")],
        initial_message: String::from("Coordinate briefly before moving."),
        facts: facts.iter().map(|fact| String::from(*fact)).collect(),
        participant_profiles: vec![
            ConversationParticipantProfile {
                id: String::from("alpha"),
                display_name: String::from("Commander Alpha"),
                persona: String::from("Measured squad leader."),
                current_goal: String::from("Secure the bridge."),
            },
            ConversationParticipantProfile {
                id: String::from("bravo"),
                display_name: String::from("Scout Bravo"),
                persona: String::from(scout_persona),
                current_goal: String::from("Warn about the east path."),
            },
        ],
        tool_calling: LlmToolCallingMode::Native,
    }
}

#[test]
fn generated_conversation_prompt_includes_supplied_facts() {
    let prompt = build_generated_conversation_prompt(&squad_request(
        &["The eastern path is exposed.", "The bridge must be secured first."],
        "Alert reconnaissance scout.",
    ));

    assert!(prompt.contains("Conversation facts gathered from prior rounds:"));
    assert!(prompt.contains("The eastern path is exposed."));
    assert!(prompt.contains("The bridge must be secured first."));
    assert!(prompt.contains("Active tool-calling format for proposed actions: native."));
    assert!(prompt.contains("keep the dialogue in `text` and put the action in `tool_calls`"));
    assert!(prompt.contains("Only leave `text` empty when the utterance is purely an action beat"));
    assert!(prompt.contains("tool_calls"));
}

#[test]
fn generated_conversation_prompts_skip_blank_facts_and_fill_in_blank_fields() {
    let prompt = build_generated_conversation_prompt(&squad_request(
        &["The eastern path is exposed.", "  ", "The bridge must be secured first."],
        " ",
    ));

    assert!(prompt.contains("Produce at most 6 utterances.\n\nConversation requirements:\n"));
    assert!(prompt.contains(
        "prior rounds:\n- The eastern path is exposed.\n- The bridge must be secured first.\n\n\nParticipant information:\n- display_name: Commander Alpha\n  persona: Measured squad leader.\n  current_goal: Secure the bridge.\n- display_name: Scout Bravo\n  persona: unspecified\n  current_goal: Warn about the east path.\n\nValid speaker ids for `speaker` fields:\n- alpha\n- bravo\n\nOutput example:\n"
    ));
    assert!(prompt.contains("I\u{2019}m warning you"));
}

#[test]
fn worlds_describe_participants() {
    let world = demo_world();
    assert_eq!(world_display_name(Some(&world), "x"), "Commander Alpha");
    assert_eq!(world_display_name(None, "x"), "x");
    assert_eq!(world_string_field(Some(&world), "missing"), "");
    let blank = LlmWorldContext {
        world_view: json("{\"agent_name\":\"  \",\"persona\":\" p \"}"),
        world_schema: Value::Null,
    };
    assert_eq!(world_display_name(Some(&blank), "x"), "x");
    assert_eq!(world_string_field(Some(&blank), "persona"), "p");
    assert_eq!(empty_to_placeholder(" \n"), "unspecified");
    assert_eq!(empty_to_placeholder(" a "), " a ");
}

#[test]
fn entries_are_written_by_their_kind() {
    let entry = |kind: LlmConversationEntryKind| LlmConversationEntry {
        speaker: String::from("s"),
        text: String::from("t"),
        kind,
        extractable: false,
        sequence: 0,
    };
    assert_eq!(render_conversation_entry(&entry(LlmConversationEntryKind::Chat)), "**s**: t");
    assert_eq!(render_conversation_entry(&entry(LlmConversationEntryKind::Control)), "[system] t");
    assert_eq!(render_conversation_entry(&entry(LlmConversationEntryKind::Prompt)), "[prompt] t");
    assert_eq!(
        render_conversation_entry(&entry(LlmConversationEntryKind::Response)),
        "[response:s] t"
    );
    assert_eq!(
        render_conversation_entry(&entry(LlmConversationEntryKind::ToolCall)),
        "[tools:s] t"
    );
    assert_eq!(chatml_message("user", "hi"), "<|im_start|>user\nhi<|im_end|>");
    assert_eq!(
        render_plain_text_chat_entry(
            "s",
            &entry(LlmConversationEntryKind::Control),
            None,
            None
        ),
        "<|im_start|>system\nt<|im_end|>"
    );
    assert_eq!(
        format_conversation_context(&LlmConversationState::default()),
        "No conversation history is active for this request."
    );
}

#[test]
fn turns_append_a_prompt_and_a_response_or_tools() {
    let mut conversation = LlmConversationState::default();
    append_conversation_turn(&mut conversation, "a", "ask", "answer", &[]);
    append_conversation_turn(&mut conversation, "a", "act", "", &[call("x"), call("y")]);
    let entries = conversation
        .entries
        .iter()
        .map(|entry| (entry.speaker.as_str(), entry.text.as_str(), entry.kind, entry.sequence))
        .collect::<Vec<_>>();
    assert_eq!(
        entries,
        [
            ("user", "ask", LlmConversationEntryKind::Prompt, 0),
            ("a", "answer", LlmConversationEntryKind::Response, 1),
            ("user", "act", LlmConversationEntryKind::Prompt, 2),
            ("a", "tool calls: x, y", LlmConversationEntryKind::ToolCall, 3),
        ]
    );
    conversation.next_entry_sequence = u64::MAX;
    chat(&mut conversation, "a", "last", true);
    assert_eq!(conversation.next_entry_sequence, 0);
}

#[test]
fn refreshing_merges_facts_and_leaves_nothing_pending() {
    let mut conversation = LlmConversationState::default();
    for idx in 0..13 {
        chat(&mut conversation, "alpha", &format!("line {idx}"), true);
    }
    conversation.facts.push(fact("Old.", 0.5, "1999-01-01"));
    let input = begin_fact_refresh(&mut conversation, Some(20_000)).unwrap();
    assert!(input.starts_with("**alpha**: line 0\n**alpha**: line 1\n"));
    assert!(conversation.facts.is_empty());
    complete_fact_refresh(
        &mut conversation,
        vec![fact("New.", 0.25, "unknown")],
        Some(20_000),
    );
    assert_eq!(conversation.facts, vec![fact("New.", 0.25, "unknown")]);
    assert_eq!(conversation.entries.len(), 12);
    assert_eq!(conversation.processed_entry_count, 12);
    assert_eq!(begin_fact_refresh(&mut conversation, Some(20_000)), None);
    append_conversation_turn(&mut conversation, "alpha", "ask", "answer", &[]);
    assert_eq!(begin_fact_refresh(&mut conversation, Some(20_000)), None);
    assert_eq!(conversation.entries.len(), 12);
    assert_eq!(conversation.processed_entry_count, 10);
}

#[test]
fn facts_are_read_from_objects_arrays_and_lists() {
    let reply = "```json\nSure: {\"facts\":[{\"fact\":\" A. \",\"importance\":2,\"expiry\":\" \",\"x\":1},[\"B.\",-1,\"2030-01-01\"]]} and {\"fact\":\"C.\",\"importance\":1e-1,\"expiry\":\"unknown\"}\n```";
    let facts = parse_fact_extraction_response(reply);
    assert_eq!(
        facts,
        vec![
            fact("A.", 1.0, "unknown"),
            fact("B.", 0.0, "2030-01-01"),
            fact("C.", 0.1, "unknown"),
        ]
    );
    assert!(parse_fact_extraction_response("{\"facts\":[{\"fact\":\"A.\"}]}").is_empty());
    assert!(parse_fact_extraction_response("nothing").is_empty());
    assert!(parse_fact_extraction_response(
        "{\"fact\":\"  \",\"importance\":0.5,\"expiry\":\"unknown\"}"
    )
    .is_empty());
    assert_eq!(
        parse_fact_extraction_response(
            "{\"facts\":7,\"fact\":\"A.\",\"importance\":0.5,\"expiry\":\"unknown\"}"
        ),
        vec![fact("A.", 0.5, "unknown")]
    );
    assert!(parse_single_fact_object("[\"B.\",1,\"unknown\"]").is_none());
    assert!(parse_single_fact_object("{\"fact\":1,\"importance\":1,\"expiry\":\"u\"}").is_none());
    assert_eq!(
        parse_single_fact_object("{\"fact\":\"B.\",\"importance\":1,\"expiry\":\"u\"}"),
        Some(fact("B.", 1.0, "u"))
    );
}

#[test]
fn stored_facts_stand_in_the_prompt() {
    assert_eq!(format_fact_memory(&[]), "No stored facts.");
    assert_eq!(
        format_fact_memory(&[fact("A.", 0.125, "unknown"), fact("B.", 1.0, "2030-01-01")]),
        "- fact: A. | importance: 0.12 | expiry: unknown\n- fact: B. | importance: 1.00 | expiry: 2030-01-01"
    );
}

#[test]
fn tools_stand_in_the_prompt() {
    assert_eq!(format_tool_block(&[]), "No tools are available for this request.");
    assert_eq!(
        format_tool_block(&[tool("go")]),
        "Available tools:\n- tool: go\n  description: The go tool.\n  arguments schema: {\n  \"type\": \"object\"\n}\nOnly valid tool name for this request: go"
    );
    assert!(!format_tool_block(&[tool("go"), tool("stop")]).contains("Only valid"));
    assert!(has_parameters(&tool("go")));
    assert!(!has_parameters(&LlmToolDefinition::new(
        String::from("x"),
        String::new(),
        json("{}")
    )));
    assert!(!has_parameters(&LlmToolDefinition::new(
        String::from("x"),
        String::new(),
        json("[1]")
    )));
    let tools = [tool("go")];
    assert!(exposes_tools(
        LlmResponseMode::StructuredJson,
        &tools,
        LlmToolCallingMode::Native
    ));
    assert!(!exposes_tools(
        LlmResponseMode::PlainTextChat,
        &tools,
        LlmToolCallingMode::Native
    ));
    assert!(!exposes_tools(LlmResponseMode::StructuredJson, &[], LlmToolCallingMode::Native));
    assert!(!exposes_tools(
        LlmResponseMode::StructuredJson,
        &tools,
        LlmToolCallingMode::Disabled
    ));
    let set = LlmToolSet::new(vec![String::from("go")], vec![tool("go")]);
    assert!(set.contains("go") && !set.contains("stop"));
    assert_eq!(set.clone().definitions()[0].name, "go");
    assert_eq!(
        LLMActionError::Dispatch(String::from("closed")).message(),
        "failed to dispatch LLM action: closed"
    );
}

fn task(mode: LlmResponseMode) -> TurnGenerationTask {
    let mut conversation = LlmConversationState::default();
    chat(&mut conversation, "agent_bravo", "Scout ahead.", true);
    TurnGenerationTask {
        agent: String::from("agent_alpha"),
        conversation_id: Some(String::from("t")),
        prompt: String::from("What now?"),
        response_mode: mode,
        facts: vec![fact("A.", 0.5, "unknown")],
        tools: vec![tool("go")],
        world: Some(LlmWorldContext {
            world_view: json("{\"hp\":7}"),
            world_schema: json(
                "{\"properties\":{\"hp\":{\"description\":\"Hit points.\"}}}",
            ),
        }),
        conversation: Some(conversation),
        session_participants: Some(vec![String::from("b"), String::from("c")]),
        speaker_labels: None,
    }
}

#[test]
fn structured_turns_are_asked_in_full() {
    let messages = turn_messages_within(
        &task(LlmResponseMode::StructuredJson),
        LlmToolCallingMode::AgenticXml,
        8,
    )
    .unwrap();
    let block = "Available tools:\n- tool: go\n  description: The go tool.\n  arguments schema: {\n  \"type\": \"object\"\n}\nOnly valid tool name for this request: go";
    let details = "{\n  \"hp\": 7\n}\n\nWorld fields:\n- hp: Hit points.";
    assert_eq!(
        messages.system,
        format!("Agent: agent_alpha\nSpeak only in the response text.\nIf you need to act, use the provided tools instead of narrating the action.\nKeep tool calls separate from spoken dialogue.\nWorld context:\n{details}\nMemory facts and conversation history are supplied in the user message.\nNearby people: b, c\nUse agentic XML-style tool calling when an action is required.\n{block}")
    );
    assert_eq!(
        messages.user,
        format!("World context:\nWorld state:\n{details}\n\nMemory facts:\n- fact: A. | importance: 0.50 | expiry: unknown\n\nConversation context:\n**agent_bravo**: Scout ahead.\n\n{block}\n\nGame prompt:\nWhat now?\n")
    );
}

#[test]
fn bare_turns_say_what_is_missing() {
    let mut bare = task(LlmResponseMode::StructuredJson);
    bare.world = None;
    bare.tools = Vec::new();
    bare.conversation = None;
    bare.session_participants = Some(Vec::new());
    let messages = turn_messages_within(&bare, LlmToolCallingMode::Native, 0).unwrap();
    assert_eq!(
        messages.system,
        "Agent: agent_alpha\nReturn exactly one JSON object.\nNo extra text.\nNo tools are available for this request.\nRespond with a JSON object containing only `response`.\nNever return `tool_calls`.\nWorld context:\nNo world state snapshot is available for this agent.\nMemory facts and conversation history are supplied in the user message.\nNo tools are available for this request."
    );
    assert!(messages.user.contains(
        "Conversation context:\nNo conversation history is active for this request.\n\nNo tools"
    ));
}

#[test]
fn endless_schemas_are_refused_before_a_turn_is_asked() {
    let mut endless = task(LlmResponseMode::StructuredJson);
    endless.world = Some(LlmWorldContext {
        world_view: Value::Null,
        world_schema: json(
            "{\"$ref\":\"#/d/n\",\"d\":{\"n\":{\"properties\":{\"next\":{\"$ref\":\"#/d/n\"}}}}}",
        ),
    });
    assert!(turn_messages_within(&endless, LlmToolCallingMode::Native, 50).is_none());
    endless.response_mode = LlmResponseMode::PlainTextChat;
    assert!(turn_messages_within(&endless, LlmToolCallingMode::Native, 50).is_some());
}

#[test]
fn chats_are_asked_in_messages() {
    let chat_task = task(LlmResponseMode::PlainTextChat);
    let messages =
        turn_messages_within(&chat_task, LlmToolCallingMode::Native, 8).unwrap();
    assert_eq!(
        messages.user,
        "Nearby people: b, c\n<|im_start|>user\n**agent_bravo:** Scout ahead.<|im_end|>\nRespond as agent_alpha. Continue the conversation with message text only. If everything important has already been covered, reply with SILENT.\n\nCurrent prompt:\nWhat now?"
    );
    assert_eq!(
        build_plain_text_chat_prompt("a", None, "p", None, None, None),
        "Respond as a. Continue the conversation with message text only. If everything important has already been covered, reply with SILENT.\n\nCurrent prompt:\np"
    );
    let extraction = extraction_messages("**a**: b");
    assert_eq!(
        extraction.system,
        "Extract durable facts from the user-provided conversation updates. Return only JSON."
    );
    assert!(extraction.user.ends_with("Conversation updates:\n**a**: b\n"));
}

fn candidate(text: &str) -> ReplyCandidate {
    let value: Value = match serde_json::from_str(text) {
        Ok(value) => value,
        Err(_) => return ReplyCandidate { turn: None, call: None },
    };
    let tool_call = |value: &Value| {
        value["tool"].as_str().map(|tool| LlmToolCall {
            tool: String::from(tool),
            arguments: value["arguments"].clone(),
        })
    };
    ReplyCandidate {
        turn: Some(TurnFields {
            response: value["response"].as_str().map(String::from),
            tool_calls: value["tool_calls"]
                .as_array()
                .map(|calls| calls.iter().filter_map(tool_call).collect())
                .unwrap_or_default(),
        }),
        call: tool_call(&value),
    }
}

fn message(text: &str) -> ModelMessage {
    ModelMessage { content: Some(String::from(text)), tool_calls: None }
}

#[test]
fn structured_replies_become_turns() {
    let task = task(LlmResponseMode::StructuredJson);
    let read = |text: &str| finish_turn(&task, Some(&message(text)), candidate).unwrap();
    let plain = read("```json\n{\"response\":\"Hold.\"} {\"response\":\"Later.\"}\n```");
    assert_eq!(plain.response, "Hold.");
    assert!(plain.tool_calls.is_empty());
    assert_eq!(plain.conversation_id.as_deref(), Some("t"));
    let acting = read(
        "{\"response\":\"x\",\"tool_calls\":[{\"tool\":\"go\",\"arguments\":{\"a\":1}}]} {\"tool\":\"name\"} {\"tool\":\"fly\"}",
    );
    assert_eq!(acting.response, "");
    assert_eq!(
        acting.tool_calls,
        vec![
            LlmToolCall { tool: String::from("go"), arguments: json("{\"a\":1}") },
            LlmToolCall { tool: String::from("go"), arguments: Value::Null },
        ]
    );
    assert_eq!(read("  just text {} ").response, "just text {}");
    assert!(finish_turn(&task, None, candidate).is_err());
    let called = ModelMessage {
        content: Some(String::from(" Moving. ")),
        tool_calls: Some(vec![ModelToolCall {
            name: String::from("go"),
            arguments: String::from("east"),
        }]),
    };
    let native = finish_turn(&task, Some(&called), candidate).unwrap();
    assert_eq!(native.response, "Moving.");
    assert_eq!(native.tool_calls[0].arguments, Value::String(String::from("east")));
}

#[test]
fn empty_replies_are_no_turn() {
    let err = finish_turn(&task(LlmResponseMode::PlainTextChat), None, candidate).unwrap_err();
    assert_eq!(err.message(), "failed to parse llm turn: empty response");
}

#[test]
fn chat_replies_call_no_tools() {
    let task = task(LlmResponseMode::PlainTextChat);
    let called = ModelMessage {
        content: Some(String::from("**agent_alpha**: {\"response\":\"x\"}")),
        tool_calls: Some(vec![ModelToolCall {
            name: String::from("go"),
            arguments: String::from("{}"),
        }]),
    };
    let said = finish_turn(&task, Some(&called), candidate).unwrap();
    assert_eq!(said.response, "{\"response\":\"x\"}");
    assert!(said.tool_calls.is_empty());
    let silent = ModelMessage { content: None, tool_calls: None };
    assert_eq!(finish_turn(&task, Some(&silent), candidate).unwrap().response, "");
}

#[test]
fn only_offered_tools_are_called() {
    let calls = vec![call("a"), call("name"), call("b"), call("c")];
    let kept = |tools: &[LlmToolDefinition]| {
        normalize_and_filter_tool_calls(
            turn("x", calls.clone()),
            LlmResponseMode::StructuredJson,
            tools,
        )
        .tool_calls
        .iter()
        .map(|call| call.tool.clone())
        .collect::<Vec<_>>()
    };
    assert_eq!(kept(&[tool("a"), tool("b")]), ["a", "b"]);
    assert_eq!(kept(&[tool("b")]), ["b", "b"]);
    assert!(kept(&[]).is_empty());
    let offered = vec![
        ModelToolCall { name: String::from("a"), arguments: String::from("{\"x\":1}") },
        ModelToolCall { name: String::from("z"), arguments: String::from("{}") },
    ];
    let accepted = parse_mistral_tool_calls(Some(&offered), &[tool("a")]);
    assert_eq!(accepted.len(), 1);
    assert_eq!(accepted[0].arguments, json("{\"x\":1}"));
    assert!(parse_mistral_tool_calls(Some(&offered), &[]).is_empty());
    assert!(parse_mistral_tool_calls(None, &[tool("a")]).is_empty());
}

#[test]
fn labels_are_taken_off_in_either_form() {
    let labels = ["a", "b c"];
    let strip = |text: &str| strip_plain_text_chat_speaker_prefix(text, &labels);
    assert_eq!(strip("** b c **:  hi ").as_deref(), Some("hi"));
    assert_eq!(strip("**a:** hi **:").as_deref(), Some("hi **:"));
    assert_eq!(strip("**x**: hi"), None);
    assert_eq!(strip("a: hi"), None);
    assert_eq!(normalize_plain_text_chat_response("a", None, " ** "), "SILENT");
}

#[test]
fn cancellation_flags_are_read() {
    assert_eq!(check_cancelled(None), Ok(()));
    assert_eq!(check_cancelled(Some(&AtomicBool::new(false))), Ok(()));
    assert!(check_cancelled(Some(&AtomicBool::new(true))).is_err());
    assert!(cancellation_outcome(true).is_err());
    assert!(cancellation_outcome(false).is_ok());
}

#[test]
fn merging_replaces_ranks_and_caps() {
    let mut stored = vec![fact("Gone.", 0.9, "2000-01-01"), fact("bridge held", 0.5, "unknown")];
    merge_conversation_facts_on(
        &mut stored,
        vec![
            fact("Bridge Held", 0.5, "2030-01-01"),
            fact("bridge held", 0.4, "unknown"),
            fact("B.", 0.75, "unknown"),
            fact("A.", 0.75, "unknown"),
        ],
        Some(20_000),
    );
    assert_eq!(
        stored,
        vec![
            fact("A.", 0.75, "unknown"),
            fact("B.", 0.75, "unknown"),
            fact("Bridge Held", 0.5, "2030-01-01"),
        ]
    );
    let many = (0..30)
        .map(|n| fact(&format!("fact {n:02}"), 0.01 * n as f32, "unknown"))
        .collect::<Vec<_>>();
    let mut stored = Vec::new();
    merge_conversation_facts_on(&mut stored, many, None);
    assert_eq!(stored.len(), 24);
    assert_eq!(stored[0].fact, "fact 29");
    assert_eq!(stored[23].fact, "fact 06");
}

#[test]
fn local_chats_know_no_facts_and_no_tools() {
    let full = task(LlmResponseMode::PlainTextChat);
    let mut bare = task(LlmResponseMode::PlainTextChat);
    bare.facts = Vec::new();
    bare.tools = Vec::new();
    assert_eq!(
        turn_messages_within(&full, LlmToolCallingMode::Native, 8),
        turn_messages_within(&bare, LlmToolCallingMode::Disabled, 8)
    );
}
