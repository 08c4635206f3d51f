use bevellm::bridge::{
    ConversationGenerationState, ConversationKey, LlmRuntimeBridge, RefreshOutcome, RefreshStep,
    Sending, TurnOutcome, TurnStep, FACT_STORE_CONVERSATION_ID,
};
use bevellm::config::LlmTaskRoutingConfig;
use bevellm::events::{
    LlmConversationCommand, LlmConversationGenerationCommand, LlmConversationGenerationEvent,
    LlmFactExtractionEvent, LlmFactStoreEvent,
};
use bevellm::history::append_conversation_chat;
use bevellm::importance::Importance;
use bevellm::model::LlmToolCallingMode;
use bevellm::sessions::{
    fact_extraction_thread, finish_fact_extraction, finish_generated_request,
    handle_extracted_facts, handle_stored_facts, missing_profile, start_fact_store,
    ConversationGenerationResult, FactExtractionRequest, FactStoreRequest, FactsOutcome,
    GenerationStep, RoutedTaskKind,
};
use bevellm::turn::{response_of_turn, TurnGenerationTask};
use bevellm::types::{
    LlmConversationEntryKind, LlmConversationFact, LlmConversationState, LlmRequest,
    LlmResponseMode, LlmToolCall, LlmTurn, LlmWorldContext, PlannedUtterance,
};
use serde_json::Value;

#[derive(Debug, Clone, PartialEq, Eq)]
struct TaskRecord {
    profile_id: String,
    task: RoutedTaskKind,
}

fn record(profile_id: &str, task: RoutedTaskKind) -> TaskRecord {
    TaskRecord { profile_id: String::from(profile_id), task }
}

struct Harness {
    bridge: LlmRuntimeBridge,
    routing: LlmTaskRoutingConfig,
    records: Vec<TaskRecord>,
    responses: Vec<LlmTurn>,
}

fn fact(text: &str) -> LlmConversationFact {
    LlmConversationFact {
        fact: String::from(text),
        importance: Importance { bits: 0.8f32.to_bits() },
        expiry: String::from("unknown"),
    }
}

fn request(conversation_id: Option<&str>, prompt: &str) -> LlmRequest {
    LlmRequest {
        agent: String::from("alpha"),
        conversation_id: conversation_id.map(String::from),
        world_override: None,
        prompt: String::from(prompt),
        response_mode: LlmResponseMode::StructuredJson,
        tools: Vec::new(),
    }
}

fn key(agent: &str, conversation_id: &str) -> ConversationKey {
    ConversationKey {
        agent: String::from(agent),
        conversation_id: String::from(conversation_id),
    }
}

fn read_utterances(text: &str) -> Result<Vec<PlannedUtterance>, String> {
    let value: Value = serde_json::from_str(text).map_err(|err| err.to_string())?;
    let listed = value["utterances"].as_array().ok_or(String::from("no utterances"))?;
    Ok(listed
        .iter()
        .map(|item| PlannedUtterance {
            speaker: String::from(item["speaker"].as_str().unwrap()),
            text: String::from(item["text"].as_str().unwrap()),
            tool_calls: item["tool_calls"]
                .as_array()
                .map(|calls| {
                    calls
                        .iter()
                        .map(|call| LlmToolCall {
                            tool: String::from(call["tool"].as_str().unwrap()),
                            arguments: call["arguments"].clone(),
                        })
                        .collect()
                })
                .unwrap_or_default(),
        })
        .collect())
}

impl Harness {
    fn new() -> Self {
        Harness {
            bridge: LlmRuntimeBridge::new(LlmToolCallingMode::Native),
            routing: LlmTaskRoutingConfig {
                turn_generation_profile: String::from("qwen"),
                fact_extraction_profile: String::from("smollm2"),
            },
            records: Vec::new(),
            responses: Vec::new(),
        }
    }

    fn note(&mut self, task: RoutedTaskKind) -> String {
        let profile_id = String::from(self.routing.profile_for(task));
        self.records.push(record(&profile_id, task));
        profile_id
    }

    fn refresh(&mut self, mut conversation: LlmConversationState) -> RefreshOutcome {
        let profile = self.note(RoutedTaskKind::FactExtraction);
        conversation.facts.push(fact(&format!("fact-from-{profile}")));
        conversation.processed_entry_count = conversation.entries.len();
        RefreshOutcome::Refreshed(conversation)
    }

    fn generate(&mut self, task: &TurnGenerationTask) -> TurnOutcome {
        let profile = self.note(RoutedTaskKind::TurnGeneration);
        TurnOutcome::Generated(LlmTurn {
            agent: task.agent.clone(),
            conversation_id: task.conversation_id.clone(),
            response: if task
                .prompt
                .contains("The JSON object must contain only one field: `utterances`.")
            {
                String::from(
                    "{\"utterances\":[{\"speaker\":\"alpha\",\"text\":\"Hold the bridge.\"},{\"speaker\":\"bravo\",\"text\":\"I see movement on the east path.\"}]}",
                )
            } else {
                format!("turn-from-{profile}: {}", task.prompt)
            },
            tool_calls: Vec::new(),
        })
    }

    fn run(&mut self, request: LlmRequest) {
        let mut next = Some(request);
        while let Some(request) = next.take() {
            let start = self.bridge.start_request(&request, Some(20_000));
            let refresh = start.conversation.clone().map(|thread| self.refresh(thread));
            match self.bridge.after_refresh(&request, start, refresh, false, Some(20_000)) {
                RefreshStep::Stop { next: waiting } => next = waiting,
                RefreshStep::Generate(task) => {
                    let result = self.generate(&task);
                    match self.bridge.after_turn(&request, result) {
                        TurnStep::Stop { next: waiting } => next = waiting,
                        TurnStep::Deliver(turn) => {
                            next = self.bridge.release_next_conversation_request(&turn);
                            self.responses.push(turn);
                        }
                    }
                }
            }
        }
    }

    fn send(&mut self, request: LlmRequest) {
        match self.bridge.send(request) {
            Sending::Forward(request) => self.run(request),
            Sending::Park { .. } => panic!("nothing runs"),
        }
    }
}

#[test]
fn generated_conversation_json_parses_valid_utterances() {
    let utterances = bevellm::generation::parse_generated_conversation_response(
        "{\"utterances\":[{\"speaker\":\"alpha\",\"text\":\"Hold the bridge.\"},{\"speaker\":\"bravo\",\"text\":\"I see movement.\"}]}",
        &[String::from("alpha"), String::from("bravo")],
        6,
        read_utterances,
    )
    .expect("conversation should parse");
    assert_eq!(
        utterances,
        vec![
            PlannedUtterance {
                speaker: String::from("alpha"),
                text: String::from("Hold the bridge."),
                tool_calls: Vec::new(),
            },
            PlannedUtterance {
                speaker: String::from("bravo"),
                text: String::from("I see movement."),
                tool_calls: Vec::new(),
            },
        ]
    );
}

#[test]
fn generated_conversation_rejects_unknown_speaker() {
    let err = bevellm::generation::parse_generated_conversation_response(
        "{\"utterances\":[{\"speaker\":\"charlie\",\"text\":\"Hold the bridge.\"}]}",
        &[String::from("alpha"), String::from("bravo")],
        6,
        read_utterances,
    )
    .expect_err("speaker should be rejected");
    assert!(err.contains("unknown speaker id"));
    assert_eq!(err, "unknown speaker id `charlie`");
}

#[test]
fn generated_conversation_rejects_blank_utterance_text() {
    let err = bevellm::generation::parse_generated_conversation_response(
        "{\"utterances\":[{\"speaker\":\"alpha\",\"text\":\"   \"}]}",
        &[String::from("alpha")],
        6,
        read_utterances,
    )
    .expect_err("blank text should be rejected");
    assert!(err.contains("blank utterance"));
}

#[test]
fn generated_conversation_rejects_oversized_transcript() {
    let err = bevellm::generation::parse_generated_conversation_response(
        "{\"utterances\":[{\"speaker\":\"alpha\",\"text\":\"1\"},{\"speaker\":\"alpha\",\"text\":\"2\"},{\"speaker\":\"alpha\",\"text\":\"3\"},{\"speaker\":\"alpha\",\"text\":\"4\"},{\"speaker\":\"alpha\",\"text\":\"5\"},{\"speaker\":\"alpha\",\"text\":\"6\"},{\"speaker\":\"alpha\",\"text\":\"7\"}]}",
        &[String::from("alpha")],
        6,
        read_utterances,
    )
    .expect_err("oversized transcript should be rejected");
    assert!(err.contains("max utterance count"));
    assert_eq!(err, "conversation exceeded max utterance count of 6");
}

#[test]
fn generated_conversation_json_parses_tool_only_utterances() {
    let utterances = bevellm::generation::parse_generated_conversation_response(
        "{\"utterances\":[{\"speaker\":\"alpha\",\"text\":\"\",\"tool_calls\":[{\"tool\":\"advance_to_bridge\",\"arguments\":{\"direction\":\"east\"}}]}]}",
        &[String::from("alpha")],
        6,
        read_utterances,
    )
    .expect("conversation should parse");
    assert!(utterances[0].text.is_empty());
    assert_eq!(
        utterances[0].tool_calls,
        vec![LlmToolCall {
            tool: String::from("advance_to_bridge"),
            arguments: serde_json::from_str("{\"direction\":\"east\"}").unwrap(),
        }]
    );
}

#[test]
fn unreadable_conversations_are_refused_and_texts_trimmed() {
    let participants = [String::from("alpha")];
    let err = bevellm::generation::parse_generated_conversation_response(
        " nothing ",
        &participants,
        6,
        |text: &str| Err(format!("cannot read [{text}]")),
    )
    .unwrap_err();
    assert_eq!(err, "invalid conversation JSON: cannot read [nothing]");
    let utterances = bevellm::generation::parse_generated_conversation_response(
        "\n{\"utterances\":[{\"speaker\":\"alpha\",\"text\":\"  Go.  \"}]}\n",
        &participants,
        6,
        read_utterances,
    )
    .unwrap();
    assert_eq!(utterances[0].text, "Go.");
}

#[test]
fn standard_request_uses_turn_generation_profile() {
    let mut harness = Harness::new();
    harness.send(request(None, "Plan the move."));
    assert_eq!(harness.responses.len(), 1);
    assert_eq!(harness.records, vec![record("qwen", RoutedTaskKind::TurnGeneration)]);
}

#[test]
fn generated_conversation_uses_turn_generation_profile_only() {
    let mut harness = Harness::new();
    let step = harness.bridge.handle_generation_command(
        LlmConversationGenerationCommand::GenerateConversation {
            session_id: String::from("session-1"),
            participants: vec![String::from("alpha"), String::from("bravo")],
            initial_message: String::from("Coordinate briefly before moving."),
            facts: vec![String::from("The eastern path is exposed.")],
        },
    );
    let generation = match step {
        GenerationStep::Start { request, cancel: None } => request,
        other => panic!("unexpected step: {other:?}"),
    };
    let (task, _token) = harness.bridge.start_generated_request(&generation);
    let result = harness.generate(&task);
    let done = finish_generated_request(&generation, result, read_utterances).unwrap();
    assert!(matches!(
        harness.bridge.handle_generated_conversation(done),
        Some(LlmConversationGenerationEvent::ConversationGenerated { .. })
    ));
    assert_eq!(harness.records, vec![record("qwen", RoutedTaskKind::TurnGeneration)]);
}

#[test]
fn fact_refresh_uses_fact_extraction_profile_and_persists_facts() {
    let mut harness = Harness::new();
    let mut state = LlmConversationState::default();
    append_conversation_chat(
        &mut state,
        String::from("bravo"),
        String::from("Supplies are in the shed."),
        true,
    );
    harness.bridge.conversations.insert(key("alpha", "thread"), state);

    harness.send(request(Some("thread"), "What matters?"));
    assert_eq!(harness.responses.len(), 1);

    assert_eq!(
        harness.records,
        vec![
            record("smollm2", RoutedTaskKind::FactExtraction),
            record("qwen", RoutedTaskKind::TurnGeneration),
        ]
    );

    let conversation = harness
        .bridge
        .conversation_state("alpha", "thread")
        .expect("conversation should exist");
    assert!(conversation.facts.iter().any(|fact| fact.fact == "fact-from-smollm2"));
}

#[test]
fn direct_fact_extraction_uses_fact_profile_and_emits_event() {
    let mut harness = Harness::new();
    let request = FactExtractionRequest {
        request_id: String::from("facts-1"),
        session_id: String::from("session-1"),
        utterance_index: 0,
        utterance: PlannedUtterance {
            speaker: String::from("alpha"),
            text: String::from("Supplies are in the shed."),
            tool_calls: Vec::new(),
        },
    };
    let thread = fact_extraction_thread(&request);
    assert_eq!(thread.entries[0].text, "Supplies are in the shed.");
    assert!(thread.entries[0].extractable);
    let refresh = harness.refresh(thread);
    assert!(matches!(
        handle_extracted_facts(finish_fact_extraction(request, refresh)),
        LlmFactExtractionEvent::FactsExtractedFromUtterance { .. }
    ));
    assert_eq!(harness.records, vec![record("smollm2", RoutedTaskKind::FactExtraction)]);
}

#[test]
fn prompt_fact_storage_uses_fact_profile_and_persists_to_agents() {
    let mut harness = Harness::new();
    let request = start_fact_store(FactStoreRequest {
        request_id: String::from("store-1"),
        text: String::from("**Alpha:** Alpha ordered the bridge held."),
        agents: vec![String::from("alpha"), String::from("bravo")],
    })
    .expect("fact storage should dispatch");
    harness.note(RoutedTaskKind::FactPromptExtraction);
    let extracted =
        FactsOutcome::Extracted(vec![fact(&format!("fact-from-prompt: {}", request.text))]);
    let result = harness.bridge.finish_fact_store(request, extracted);
    assert!(matches!(handle_stored_facts(result), LlmFactStoreEvent::FactsStored { .. }));
    assert_eq!(harness.records, vec![record("smollm2", RoutedTaskKind::FactPromptExtraction)]);

    for agent in ["alpha", "bravo"] {
        let conversation = harness
            .bridge
            .conversation_state(agent, FACT_STORE_CONVERSATION_ID)
            .expect("fact store should exist");
        assert!(conversation.facts.iter().any(|fact| fact.fact.contains("fact-from-prompt")));
    }
}

#[test]
fn newer_conversation_request_cancels_older_request_and_preserves_ordering() {
    let mut harness = Harness::new();
    harness
        .bridge
        .conversations
        .insert(key("alpha", "thread"), LlmConversationState::default());

    let first = match harness.bridge.send(request(Some("thread"), "first")) {
        Sending::Forward(request) => request,
        other => panic!("unexpected sending: {other:?}"),
    };
    let start = harness.bridge.start_request(&first, Some(20_000));
    let token = start.cancel;
    assert_eq!(
        harness.bridge.send(request(Some("thread"), "second")),
        Sending::Park { cancel: token }
    );
    let refresh = start.conversation.clone().map(|thread| harness.refresh(thread));
    let task = match harness.bridge.after_refresh(&first, start, refresh, false, Some(20_000)) {
        RefreshStep::Generate(task) => task,
        other => panic!("unexpected step: {other:?}"),
    };
    assert_eq!(task.prompt, "first");
    match harness.bridge.after_turn(&first, TurnOutcome::Cancelled) {
        TurnStep::Stop { next: Some(second) } => harness.run(second),
        other => panic!("unexpected step: {other:?}"),
    }

    assert_eq!(harness.responses.len(), 1);
    assert!(harness.responses[0].response.contains("second"));

    let conversation = harness
        .bridge
        .conversation_state("alpha", "thread")
        .expect("conversation should exist");
    assert_eq!(
        conversation
            .entries
            .iter()
            .filter(|entry| entry.kind == LlmConversationEntryKind::Prompt)
            .count(),
        1
    );
    assert!(!harness.bridge.active_conversations.contains_key(&key("alpha", "thread")));
}

#[test]
fn newer_generated_conversation_request_supersedes_older_request() {
    let mut harness = Harness::new();
    let mut generations = Vec::new();
    let mut cancels = Vec::new();
    for message in ["first", "second"] {
        let step = harness.bridge.handle_generation_command(
            LlmConversationGenerationCommand::GenerateConversation {
                session_id: String::from("session-1"),
                participants: vec![String::from("alpha"), String::from("bravo")],
                initial_message: String::from(message),
                facts: vec![format!("{message} fact")],
            },
        );
        match step {
            GenerationStep::Start { request, cancel } => {
                generations.push(request);
                cancels.push(cancel);
            }
            other => panic!("unexpected step: {other:?}"),
        }
    }
    assert_eq!(cancels, vec![None, Some(0)]);
    let mut events = Vec::new();
    for generation in &generations {
        let (task, _token) = harness.bridge.start_generated_request(generation);
        let result = harness.generate(&task);
        let done = finish_generated_request(generation, result, read_utterances).unwrap();
        events.extend(harness.bridge.handle_generated_conversation(done));
    }
    assert_eq!(events.len(), 1);
    match &events[0] {
        LlmConversationGenerationEvent::ConversationGenerated { conversation } => {
            assert_eq!(conversation.session_id, "session-1");
            assert_eq!(conversation.utterances.len(), 2);
        }
        other => panic!("unexpected output: {other:?}"),
    }
}

#[test]
fn generated_conversation_failure_emits_failure_event() {
    let failure = || ConversationGenerationResult {
        session_id: String::from("session-1"),
        generation: 1,
        result: Err(String::from("invalid conversation JSON")),
    };
    assert_eq!(Harness::new().bridge.handle_generated_conversation(failure()), None);

    let mut bridge = Harness::new().bridge;
    bridge.generated_conversations.insert(
        String::from("session-1"),
        ConversationGenerationState {
            participants: vec![String::from("alpha")],
            generation: 1,
        },
    );

    assert_eq!(
        bridge.handle_generated_conversation(failure()),
        Some(LlmConversationGenerationEvent::ConversationGenerationFailed {
            session_id: String::from("session-1"),
            reason: String::from("invalid conversation JSON"),
        })
    );
}

#[test]
fn parked_requests_run_newest_first_and_alone() {
    let mut bridge = Harness::new().bridge;
    assert!(matches!(bridge.send(request(Some("t"), "one")), Sending::Forward(_)));
    assert_eq!(bridge.send(request(Some("t"), "two")), Sending::Park { cancel: None });
    assert_eq!(bridge.send(request(Some("t"), "three")), Sending::Park { cancel: None });
    assert!(matches!(bridge.send(request(Some("u"), "other")), Sending::Forward(_)));
    assert!(matches!(bridge.send(request(None, "stateless")), Sending::Forward(_)));
    let turn = LlmTurn {
        agent: String::from("alpha"),
        conversation_id: Some(String::from("t")),
        response: String::from("done"),
        tool_calls: Vec::new(),
    };
    let next = bridge.release_next_conversation_request(&turn).unwrap();
    assert_eq!(next.prompt, "three");
    assert!(matches!(bridge.send(request(Some("t"), "four")), Sending::Park { .. }));
    assert_eq!(bridge.release_next_conversation_request(&turn).unwrap().prompt, "four");
    assert!(bridge.release_next_conversation_request(&turn).is_none());
    assert!(matches!(bridge.send(request(Some("t"), "five")), Sending::Forward(_)));
}

#[test]
fn request_world_replaces_the_stored_one_for_that_request() {
    let world = |name: &str| LlmWorldContext {
        world_view: serde_json::from_str(&format!("{{\"agent_name\":\"{name}\"}}")).unwrap(),
        world_schema: Value::Null,
    };
    let mut bridge = Harness::new().bridge;
    bridge.set_world(String::from("alpha"), world("Stored"));
    let mut special = request(None, "one");
    special.world_override = Some(world("Special"));
    assert_eq!(bridge.start_request(&special, None).world, Some(world("Special")));
    assert_eq!(bridge.start_request(&request(None, "two"), None).world, Some(world("Stored")));
    bridge.clear_world(String::from("alpha"));
    assert_eq!(bridge.start_request(&request(None, "three"), None).world, None);
}

#[test]
fn errors_are_delivered_but_not_kept() {
    let mut bridge = Harness::new().bridge;
    let asked = request(Some("t"), "ask");
    bridge.send(request(Some("t"), "ask"));
    bridge.start_request(&asked, None);
    match bridge.after_turn(&asked, TurnOutcome::Failed(String::from("mistral error: x"))) {
        TurnStep::Deliver(turn) => {
            assert_eq!(turn.response, "LLM error: mistral error: x");
            assert_eq!(
                response_of_turn(turn).response.as_deref(),
                Some("LLM error: mistral error: x")
            );
        }
        other => panic!("unexpected step: {other:?}"),
    }
    assert!(bridge.conversation_state("alpha", "t").unwrap().entries.is_empty());
}

#[test]
fn cancelled_requests_stop_after_the_refresh() {
    let mut bridge = Harness::new().bridge;
    let asked = request(Some("t"), "ask");
    bridge.send(request(Some("t"), "ask"));
    bridge.send(request(Some("t"), "again"));
    let start = bridge.start_request(&asked, None);
    match bridge.after_refresh(&asked, start, Some(RefreshOutcome::Cancelled), false, None) {
        RefreshStep::Stop { next } => assert_eq!(next.unwrap().prompt, "again"),
        other => panic!("unexpected step: {other:?}"),
    }
    let asked = request(Some("t"), "again");
    let start = bridge.start_request(&asked, None);
    let failed = Some(RefreshOutcome::Failed(String::from("no worker")));
    match bridge.after_refresh(&asked, start, failed, true, None) {
        RefreshStep::Stop { next } => assert!(next.is_none()),
        other => panic!("unexpected step: {other:?}"),
    }
    let alone = request(None, "alone");
    let start = bridge.start_request(&alone, None);
    assert_eq!(start.cancel, None);
    assert!(matches!(
        bridge.after_refresh(&alone, start, None, true, None),
        RefreshStep::Generate(_)
    ));
}

#[test]
fn facts_of_all_threads_reach_the_task() {
    let mut bridge = Harness::new().bridge;
    for (thread, text) in [("one", "First."), ("two", "Second.")] {
        let mut state = LlmConversationState::default();
        state.facts.push(fact(text));
        bridge.conversations.insert(key("alpha", thread), state);
    }
    let mut other = LlmConversationState::default();
    other.facts.push(fact("Other."));
    bridge.conversations.insert(key("bravo", "one"), other);
    let facts = bridge.collect_agent_facts_on("alpha", Some(20_000));
    let texts = facts.iter().map(|fact| fact.fact.as_str()).collect::<Vec<_>>();
    assert_eq!(texts, ["First.", "Second."]);
    let asked = request(Some("one"), "ask");
    let start = bridge.start_request(&asked, Some(20_000));
    match bridge.after_refresh(&asked, start, None, false, Some(20_000)) {
        RefreshStep::Generate(task) => {
            assert_eq!(task.facts, facts);
            assert_eq!(task.conversation.unwrap().facts, vec![fact("First.")]);
        }
        other => panic!("unexpected step: {other:?}"),
    }
}

#[test]
fn starting_a_request_expires_the_facts_of_its_agent() {
    let mut bridge = Harness::new().bridge;
    let mut state = LlmConversationState::default();
    state.facts.push(LlmConversationFact {
        fact: String::from("Old."),
        importance: Importance { bits: 0x3f80_0000 },
        expiry: String::from("2001-01-01"),
    });
    state.facts.push(fact("Kept."));
    bridge.conversations.insert(key("alpha", "one"), state.clone());
    bridge.conversations.insert(key("bravo", "one"), state);
    bridge.start_request(&request(Some("two"), "ask"), Some(20_000));
    assert_eq!(bridge.conversation_state("alpha", "one").unwrap().facts, vec![fact("Kept.")]);
    assert_eq!(bridge.conversation_state("bravo", "one").unwrap().facts.len(), 2);
    assert_eq!(
        bridge.conversation_state("alpha", "two"),
        Some(LlmConversationState::default())
    );
}

#[test]
fn commands_reset_compact_and_append() {
    let mut bridge = Harness::new().bridge;
    for line in 0..14 {
        bridge.handle_conversation_command(LlmConversationCommand::AppendMessage {
            agent: String::from("alpha"),
            conversation_id: String::from("t"),
            message: format!("line {line}"),
        });
    }
    bridge.handle_conversation_command(LlmConversationCommand::Compact {
        agent: String::from("alpha"),
        conversation_id: String::from("t"),
    });
    let state = bridge.conversation_state("alpha", "t").unwrap();
    assert_eq!(state.entries.len(), 12);
    assert_eq!(state.entries[0].text, "line 2");
    assert_eq!(state.entries[0].speaker, "system");
    bridge.send(request(Some("t"), "one"));
    bridge.send(request(Some("t"), "two"));
    bridge.handle_conversation_command(LlmConversationCommand::Reset {
        agent: String::from("alpha"),
        conversation_id: String::from("t"),
    });
    assert_eq!(bridge.conversation_state("alpha", "t"), None);
    assert!(!bridge.pending_conversation_requests.contains_key(&key("alpha", "t")));
    assert!(bridge.active_conversations.contains_key(&key("alpha", "t")));
}

#[test]
fn clearing_a_world_takes_all_that_belongs_to_the_agent() {
    let mut bridge = Harness::new().bridge;
    bridge.append_conversation_message(
        String::from("bravo"),
        String::from("t"),
        String::from("hello"),
    );
    bridge.send(request(Some("t"), "one"));
    bridge.start_request(&request(Some("t"), "one"), None);
    bridge.send(request(Some("t"), "two"));
    bridge.clear_world(String::from("alpha"));
    assert_eq!(bridge.conversation_state("alpha", "t"), None);
    assert!(!bridge.active_conversations.contains_key(&key("alpha", "t")));
    assert!(!bridge.pending_conversation_requests.contains_key(&key("alpha", "t")));
    assert!(!bridge.active_cancellations.contains_key(&key("alpha", "t")));
    assert!(bridge.conversation_state("bravo", "t").is_some());
}

#[test]
fn conversations_need_participants() {
    let mut bridge = Harness::new().bridge;
    let step = bridge.generate_conversation(
        String::from("s"),
        Vec::new(),
        String::from("hello"),
        Vec::new(),
    );
    assert_eq!(
        step,
        GenerationStep::Refuse(LlmConversationGenerationEvent::ConversationGenerationFailed {
            session_id: String::from("s"),
            reason: String::from("conversation requires at least one participant"),
        })
    );
    assert!(!bridge.generated_conversations.contains_key(&String::from("s")));
    assert_eq!(
        bridge.handle_generation_command(LlmConversationGenerationCommand::CancelConversation {
            session_id: String::from("s"),
        }),
        GenerationStep::Cancel(None)
    );
    match bridge.generate_conversation(
        String::from("s"),
        vec![String::from("b"), String::from("a"), String::from("b")],
        String::from("hello"),
        Vec::new(),
    ) {
        GenerationStep::Start { request, .. } => {
            assert_eq!(request.participants, ["b", "a"]);
            assert_eq!(request.generation, 1);
            assert_eq!(request.participant_profiles[0].display_name, "b");
            let (task, token) = bridge.start_generated_request(&request);
            assert_eq!(task.agent, "b");
            assert_eq!(token, 0);
            assert_eq!(
                bridge.handle_generation_command(
                    LlmConversationGenerationCommand::CancelConversation {
                        session_id: String::from("s"),
                    }
                ),
                GenerationStep::Cancel(Some(token))
            );
            assert_eq!(
                finish_generated_request(&request, TurnOutcome::Cancelled, read_utterances),
                None
            );
            assert_eq!(
                finish_generated_request(
                    &request,
                    TurnOutcome::Failed(String::from("no")),
                    read_utterances
                )
                .unwrap()
                .result,
                Err(String::from("LLM error: no"))
            );
        }
        other => panic!("unexpected step: {other:?}"),
    }
}

#[test]
fn fact_requests_report_why_they_fail() {
    let refused = start_fact_store(FactStoreRequest {
        request_id: String::from("r"),
        text: String::from("t"),
        agents: Vec::new(),
    })
    .unwrap_err();
    assert_eq!(
        handle_stored_facts(refused),
        LlmFactStoreEvent::FactStorageFailed {
            request_id: String::from("r"),
            agents: Vec::new(),
            reason: String::from("at least one agent is required"),
        }
    );
    let mut bridge = Harness::new().bridge;
    let request = || {
        start_fact_store(FactStoreRequest {
            request_id: String::from("r"),
            text: String::from("t"),
            agents: vec![String::from("a"), String::from("a")],
        })
        .unwrap()
    };
    assert_eq!(request().agents, ["a"]);
    assert_eq!(
        bridge.finish_fact_store(request(), FactsOutcome::Cancelled).result,
        Err(String::from("fact storage cancelled"))
    );
    assert_eq!(
        bridge.finish_fact_store(request(), FactsOutcome::Failed(missing_profile("p"))).result,
        Err(String::from("LLM error: missing runtime profile `p`"))
    );
    assert_eq!(bridge.conversation_state("a", FACT_STORE_CONVERSATION_ID), None);
    let extraction = || FactExtractionRequest {
        request_id: String::from("r"),
        session_id: String::from("s"),
        utterance_index: 3,
        utterance: PlannedUtterance {
            speaker: String::from("a"),
            text: String::from("Go."),
            tool_calls: Vec::new(),
        },
    };
    assert_eq!(
        finish_fact_extraction(extraction(), RefreshOutcome::Cancelled).result,
        Err(String::from("fact extraction cancelled"))
    );
    assert!(matches!(
        handle_extracted_facts(finish_fact_extraction(
            extraction(),
            RefreshOutcome::Failed(String::from("no"))
        )),
        LlmFactExtractionEvent::FactExtractionFailedForUtterance { utterance_index: 3, reason, .. }
            if reason == "LLM error: no"
    ));
}

#[test]
fn responses_carry_text_or_tool_calls() {
    let turn = |response: &str, calls: Vec<LlmToolCall>| LlmTurn {
        agent: String::from("a"),
        conversation_id: None,
        response: String::from(response),
        tool_calls: calls,
    };
    let call = LlmToolCall { tool: String::from("t"), arguments: Value::Null };
    assert_eq!(response_of_turn(turn("hi", Vec::new())).response.as_deref(), Some("hi"));
    assert_eq!(response_of_turn(turn("", Vec::new())).response, None);
    assert_eq!(response_of_turn(turn("hi", vec![call.clone()])).response, None);
    assert_eq!(response_of_turn(turn("hi", vec![call])).tool_calls.len(), 1);
}
