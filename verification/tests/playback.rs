use bevellm::events::{
    LlmConversationGenerationEvent, LlmFactExtractionCommand, LlmFactExtractionEvent,
    LlmFactStoreCommand, LlmFactStoreEvent,
};
use bevellm::importance::Importance;
use bevellm::pace::estimate_utterance_duration;
use bevellm::playback::{
    build_playback_queue, fact_ledger_lines, format_fact_store_prompt,
    handle_generated_conversation_event, play_generated_conversation,
    record_fact_extraction_events, record_fact_store_events, update_completion_state,
    ConversationPlaybackState, ConversationTranscriptPhase, ConversationTranscriptState,
    ParticipantFactLedger,
};
use bevellm::types::{
    GeneratedConversation, LlmConversationFact, LlmToolCall, PlannedUtterance,
};
use std::time::Duration;

fn importance(value: f32) -> Importance {
    Importance { bits: value.to_bits() }
}

fn fact(text: &str, value: f32, expiry: &str) -> LlmConversationFact {
    LlmConversationFact {
        fact: String::from(text),
        importance: importance(value),
        expiry: String::from(expiry),
    }
}

fn utterance(speaker: &str, text: &str) -> PlannedUtterance {
    PlannedUtterance {
        speaker: String::from(speaker),
        text: String::from(text),
        tool_calls: Vec::new(),
    }
}

fn conversation(texts: &[(&str, &str)]) -> GeneratedConversation {
    GeneratedConversation {
        session_id: String::from("session-1"),
        participants: vec![String::from("alpha"), String::from("bravo")],
        utterances: texts.iter().map(|(speaker, text)| utterance(speaker, text)).collect(),
    }
}

#[test]
fn utterance_duration_is_deterministic_and_clamped() {
    let short = Duration::from_nanos(estimate_utterance_duration("Go."));
    let long = Duration::from_nanos(estimate_utterance_duration(
        "Scout the eastern ridge, check the bridge, and report back immediately after the sweep is complete.",
    ));
    assert_eq!(short, Duration::from_nanos(estimate_utterance_duration("Go.")));
    assert!(short >= Duration::from_secs_f32(0.8));
    assert!(long <= Duration::from_secs_f32(6.0));
    assert!(long > short);
}

#[test]
fn playback_queue_uses_cumulative_start_offsets() {
    let conversation = conversation(&[
        ("alpha", "Hold the bridge."),
        ("bravo", "I see movement on the east path."),
    ]);

    let queue = build_playback_queue(&conversation);
    let items = queue.into_iter().collect::<Vec<_>>();
    assert_eq!(items[0].starts_after, 0);
    assert_eq!(items[1].starts_after, u128::from(items[0].duration));
}

#[test]
fn playback_queue_skips_action_only_utterances() {
    let conversation = GeneratedConversation {
        session_id: String::from("session-1"),
        participants: vec![String::from("alpha")],
        utterances: vec![
            PlannedUtterance {
                speaker: String::from("alpha"),
                text: String::from(""),
                tool_calls: vec![LlmToolCall {
                    tool: String::from("advance_to_bridge"),
                    arguments: serde_json::from_str("{\"direction\":\"east\"}").unwrap(),
                }],
            },
            utterance("alpha", "Hold here."),
        ],
    };

    let queue = build_playback_queue(&conversation);
    assert_eq!(queue.len(), 1);
    assert_eq!(queue.front().unwrap().text, "Hold here.");
}

#[test]
fn fact_store_prompt_uses_exact_utterance_text() {
    assert_eq!(
        format_fact_store_prompt(&utterance("alpha", "Hold the bridge.")),
        "**alpha:** Hold the bridge."
    );
}

#[test]
fn stored_facts_are_attributed_to_each_agent() {
    let mut ledger = ParticipantFactLedger::default();
    let facts = vec![fact("Alpha ordered the bridge held.", 0.85, "unknown")];

    ledger.merge_for_agents(
        &[String::from("agent_alpha"), String::from("agent_bravo")],
        &facts,
    );

    assert_eq!(
        ledger
            .facts_by_agent
            .get(&String::from("agent_alpha"))
            .expect("agent alpha should have facts")
            .len(),
        1
    );
    assert_eq!(
        ledger
            .facts_by_agent
            .get(&String::from("agent_bravo"))
            .expect("agent bravo should have facts")
            .len(),
        1
    );
    assert!(ledger.facts_by_agent.get(&String::from("agent_charlie")).is_none());
}

#[test]
fn generation_event_dispatches_per_message_fact_commands() {
    let mut transcript = ConversationTranscriptState::default();
    let mut playback = ConversationPlaybackState::default();
    let commands = handle_generated_conversation_event(
        &mut transcript,
        &mut playback,
        &LlmConversationGenerationEvent::ConversationGenerated {
            conversation: conversation(&[("alpha", "Hold the bridge.")]),
        },
        0,
    );
    assert_eq!(commands.extraction.len(), 1);
    assert_eq!(commands.store.len(), 1);

    match &commands.extraction[0] {
        LlmFactExtractionCommand::ExtractFactFromUtterance { request_id, utterance, .. } => {
            assert_eq!(request_id, "session-1:extract:0");
            assert_eq!(utterance.text, "Hold the bridge.");
        }
    }

    match &commands.store[0] {
        LlmFactStoreCommand::StoreFactsFromPrompt { request_id, text, agents } => {
            assert_eq!(request_id, "session-1:fact:0");
            assert_eq!(text, "**alpha:** Hold the bridge.");
            assert_eq!(agents, &vec![String::from("alpha"), String::from("bravo")]);
        }
    }
}

#[test]
fn stored_facts_complete_only_after_queue_drains_and_storage_finishes() {
    let mut transcript = ConversationTranscriptState::default();
    let mut playback = ConversationPlaybackState::default();
    let mut ledger = ParticipantFactLedger::default();
    handle_generated_conversation_event(
        &mut transcript,
        &mut playback,
        &LlmConversationGenerationEvent::ConversationGenerated {
            conversation: conversation(&[("alpha", "Hold the bridge.")]),
        },
        5,
    );
    record_fact_extraction_events(&mut playback, &mut transcript, &[], 6);
    assert_eq!(transcript.phase, ConversationTranscriptPhase::ReplayingTranscript);
    record_fact_store_events(&mut transcript, &mut playback, &mut ledger, &[], 6);
    let played = play_generated_conversation(&mut transcript, &mut playback, 7);
    assert_eq!(played.len(), 1);

    assert_eq!(transcript.phase, ConversationTranscriptPhase::CollectingFacts);

    record_fact_store_events(
        &mut transcript,
        &mut playback,
        &mut ledger,
        &[LlmFactStoreEvent::FactsStored {
            request_id: String::from("session-1:fact:0"),
            agents: vec![String::from("alpha"), String::from("bravo")],
            facts: vec![fact("The bridge is being held.", 0.9, "unknown")],
        }],
        8,
    );
    play_generated_conversation(&mut transcript, &mut playback, 9);

    assert_eq!(transcript.phase, ConversationTranscriptPhase::Complete);
    assert_eq!(transcript.completed_at, Some(9));
    assert_eq!(ledger.facts_by_agent.get(&String::from("bravo")).unwrap().len(), 1);
}

fn expected_nanos(text: &str) -> u128 {
    let word_count = text.split_whitespace().count().max(1) as f32;
    let commas = text.matches(',').count() as f32;
    let stops = text.chars().filter(|ch| matches!(ch, '.' | '!' | '?')).count() as f32;
    let seconds = (word_count / 2.7f32) + (commas * 0.15f32) + (stops * 0.30f32);
    Duration::from_secs_f32(seconds.clamp(0.8f32, 6.0f32)).as_nanos()
}

#[test]
fn durations_agree_with_single_precision_arithmetic() {
    for words in 0..40usize {
        for commas in 0..8usize {
            for stops in 0..8usize {
                let text =
                    format!("{}{}{}", "word ".repeat(words), ",".repeat(commas), "!".repeat(stops));
                assert_eq!(
                    u128::from(estimate_utterance_duration(&text)),
                    expected_nanos(&text),
                    "{text}"
                );
            }
        }
    }
    assert_eq!(estimate_utterance_duration(""), 800_000_012);
    assert_eq!(estimate_utterance_duration("Hold the bridge now please"), 1_851_851_821);
    assert_eq!(estimate_utterance_duration(&"go ".repeat(400)), 6_000_000_000);
}

#[test]
fn failed_generation_completes_the_round_and_empties_the_playback() {
    let mut transcript = ConversationTranscriptState::default();
    let mut playback = ConversationPlaybackState::default();
    handle_generated_conversation_event(
        &mut transcript,
        &mut playback,
        &LlmConversationGenerationEvent::ConversationGenerated {
            conversation: conversation(&[("alpha", "One."), ("bravo", "Two.")]),
        },
        10,
    );
    let commands = handle_generated_conversation_event(
        &mut transcript,
        &mut playback,
        &LlmConversationGenerationEvent::ConversationGenerationFailed {
            session_id: String::from("session-2"),
            reason: String::from("no"),
        },
        20,
    );
    assert!(commands.extraction.is_empty() && commands.store.is_empty());
    assert_eq!(
        transcript,
        ConversationTranscriptState {
            phase: ConversationTranscriptPhase::Complete,
            session_id: Some(String::from("session-2")),
            started_at: Some(10),
            completed_at: Some(20),
        }
    );
    assert!(playback.queue.is_empty());
    assert!(playback.participants.is_empty());
    assert_eq!(playback.started_at, None);
    assert_eq!(playback.session_id.as_deref(), Some("session-2"));
    assert_eq!(playback.pending_fact_store_requests, 0);
    assert_eq!(playback.pending_fact_extraction_requests, 0);
}

#[test]
fn blank_utterances_keep_their_index_but_are_not_drawn_from() {
    let mut transcript = ConversationTranscriptState::default();
    let mut playback = ConversationPlaybackState::default();
    let commands = handle_generated_conversation_event(
        &mut transcript,
        &mut playback,
        &LlmConversationGenerationEvent::ConversationGenerated {
            conversation: conversation(&[("alpha", "  "), ("bravo", "Two.")]),
        },
        0,
    );
    assert_eq!(commands.extraction.len(), 1);
    match &commands.extraction[0] {
        LlmFactExtractionCommand::ExtractFactFromUtterance {
            request_id,
            utterance_index,
            ..
        } => {
            assert_eq!(request_id, "session-1:extract:1");
            assert_eq!(*utterance_index, 1);
        }
    }
    assert_eq!(playback.pending_fact_extraction_requests, 1);
    assert_eq!(playback.pending_fact_store_requests, 1);
}

#[test]
fn utterances_are_played_when_they_are_due() {
    let mut transcript = ConversationTranscriptState::default();
    let mut playback = ConversationPlaybackState::default();
    assert!(play_generated_conversation(&mut transcript, &mut playback, 1).is_empty());
    assert_eq!(transcript.phase, ConversationTranscriptPhase::WaitingForConversation);
    handle_generated_conversation_event(
        &mut transcript,
        &mut playback,
        &LlmConversationGenerationEvent::ConversationGenerated {
            conversation: conversation(&[("alpha", "One."), ("bravo", "Two."), ("alpha", "Six.")]),
        },
        1_000,
    );
    let first = play_generated_conversation(&mut transcript, &mut playback, 1_000);
    assert_eq!(first.iter().map(|u| u.text.as_str()).collect::<Vec<_>>(), ["One."]);
    assert!(play_generated_conversation(&mut transcript, &mut playback, 0).is_empty());
    let due = 1_000 + u128::from(first[0].duration);
    assert!(play_generated_conversation(&mut transcript, &mut playback, due - 1).is_empty());
    assert_eq!(transcript.phase, ConversationTranscriptPhase::ReplayingTranscript);
    assert_eq!(play_generated_conversation(&mut transcript, &mut playback, due).len(), 1);
    let rest = play_generated_conversation(&mut transcript, &mut playback, due + 6_000_000_000);
    assert_eq!(rest[0].text, "Six.");
    assert_eq!(transcript.phase, ConversationTranscriptPhase::CollectingFacts);
}

#[test]
fn failed_results_count_as_answers_and_change_no_facts() {
    let mut transcript = ConversationTranscriptState::default();
    let mut playback = ConversationPlaybackState::default();
    let mut ledger = ParticipantFactLedger::default();
    playback.session_id = Some(String::from("session-1"));
    playback.pending_fact_store_requests = 1;
    playback.pending_fact_extraction_requests = 0;
    record_fact_extraction_events(
        &mut playback,
        &mut transcript,
        &[LlmFactExtractionEvent::FactExtractionFailedForUtterance {
            request_id: String::from("r"),
            session_id: String::from("session-1"),
            utterance_index: 0,
            utterance: utterance("alpha", "One."),
            reason: String::from("no"),
        }],
        1,
    );
    assert_eq!(playback.pending_fact_extraction_requests, 0);
    assert_eq!(transcript.phase, ConversationTranscriptPhase::CollectingFacts);
    record_fact_store_events(
        &mut transcript,
        &mut playback,
        &mut ledger,
        &[LlmFactStoreEvent::FactStorageFailed {
            request_id: String::from("r"),
            agents: vec![String::from("alpha")],
            reason: String::from("no"),
        }],
        2,
    );
    assert_eq!(playback.pending_fact_store_requests, 0);
    assert_eq!(transcript.phase, ConversationTranscriptPhase::Complete);
    assert!(ledger.facts_by_agent.get(&String::from("alpha")).is_none());
}

#[test]
fn completion_waits_for_a_session() {
    let mut transcript = ConversationTranscriptState::default();
    let playback = ConversationPlaybackState::default();
    update_completion_state(&mut transcript, &playback, 3);
    assert_eq!(transcript, ConversationTranscriptState::default());
}

#[test]
fn ledger_lines_report_each_fact() {
    assert_eq!(
        fact_ledger_lines(
            "alpha",
            &vec![fact("Held.", 0.856, "unknown"), fact("Gone.", 1.0, "2030-01-01")]
        ),
        [
            "[facts] ledger agent=alpha count=2",
            "  - fact=Held. importance=0.86 expiry=unknown",
            "  - fact=Gone. importance=1.00 expiry=2030-01-01",
        ]
    );
}
