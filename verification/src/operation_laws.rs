//! What comes out of the operations of the library, in terms of what goes in.

use crate::bridge::{
    looked_up, Key, LlmRuntimeBridge, RefreshOutcome, RefreshStep, Sending, StandardStart,
    TurnOutcome, TurnStep,
};
use crate::config::{LlmRuntimeError, LlmRuntimeProfileConfig, LlmTaskRoutingConfig, SamplingPlan};
use crate::events::LlmConversationGenerationEvent;
use crate::facts::unexpired;
use crate::generation::{
    generation_prompt, law_accepting_keeps_each_utterance, plan_utterances,
    ConversationGenerationRequest,
};
use crate::history::{begin_fact_refresh, pending_text};
use crate::history_laws::law_starting_a_refresh_loses_nothing_pending;
use crate::importance::ONE;
use crate::json::{content, Json};
use crate::model::{LlmModel, LlmToolCallingMode, ModelSourceKind};
use crate::naming::{field_description, glyphs, humanized, snake_cased, tool_description, tool_name};
use crate::playback::{
    build_playback_queue, handle_generated_conversation_event, play_generated_conversation,
    record_fact_extraction_events, record_fact_store_events_on, ConversationPlaybackState,
    ConversationTranscriptState, FactCommands, ParticipantFactLedger, ScheduledUtterance,
};
use crate::playback_laws::law_queue_holds_the_spoken_lines;
use crate::prompt_laws::law_tasks_are_shown_to_the_model;
use crate::reply::{
    is_offered, law_only_offered_tools_are_called, normalize_and_filter_tool_calls,
    normalize_plain_text_chat_response, own_labels, reply_turn, unlabelled, ModelMessage,
    ReplyCandidate,
};
use crate::reply_laws::law_replies_without_a_label_are_said_unchanged;
use crate::session_laws::law_generation_prompts_show_everything;
use crate::sessions::{
    missing_profile, ConversationGenerationResult, FactStoreRequest, FactStoreResult, FactsOutcome,
    GenerationStep, RoutedTaskKind,
};
use crate::text::{has_prefix, has_suffix, occurs, trimmed};
use crate::text_laws::{law_ends_of_sums, law_parts_stand_in_sums};
use crate::tools::{exposes_tools, has_parameters, LLMActionError};
use crate::turn::{
    finish_turn, finished_turn, is_error, response_of_turn, turn_messages_within, PromptMessages,
    TurnGenerationTask,
};
use crate::types::{
    GeneratedConversation, LlmRequest, LlmResponse, LlmResponseMode, LlmToolDefinition, LlmTurn,
    LlmWorldContext, PlannedUtterance, Utterance,
};
use std::collections::VecDeque;
use vstd::prelude::*;

verus! {

/// A request that goes on to generate a turn hands its task everything that it asks: the
/// task has the request's agent, conversation, prompt, response mode and tools, in order,
/// the world that the request started with, and the thread as the refresh left it.
pub proof fn law_generating_asks_what_was_requested(
    bridge: &mut LlmRuntimeBridge,
    request: &LlmRequest,
    start: StandardStart,
    refresh: Option<RefreshOutcome>,
    cancelled: bool,
    today: Option<i64>,
    step: RefreshStep,
)
    requires
        call_ensures(
            LlmRuntimeBridge::after_refresh,
            (bridge, request, start, refresh, cancelled, today),
            step,
        ),
    ensures
        step matches RefreshStep::Generate(task) ==> {
            &&& task.agent@ == request.agent@
            &&& task.conversation_id.deep_view() == request.conversation_id.deep_view()
            &&& task.prompt@ == request.prompt@
            &&& task.response_mode == request.response_mode
            &&& task.tools@.len() == request.tools@.len()
            &&& forall|i: int|
                0 <= i < task.tools@.len() ==> {
                    &&& (#[trigger] task.tools@[i]).name@ == request.tools@[i].name@
                    &&& task.tools@[i].description@ == request.tools@[i].description@
                    &&& content(task.tools@[i].parameters) == content(
                        request.tools@[i].parameters,
                    )
                }
            &&& task.world.deep_view() == start.world.deep_view()
            &&& task.conversation.deep_view() == match refresh {
                Some(RefreshOutcome::Refreshed(thread)) => Some(thread.deep_view()),
                _ => start.conversation.deep_view(),
            }
        },
        !cancelled && !(refresh matches Some(RefreshOutcome::Cancelled)) ==> step is Generate,
        refresh matches Some(RefreshOutcome::Cancelled) ==> step is Stop,
{
    if let RefreshStep::Generate(task) = step {
        let asked = task.tools.deep_view();
        let offered = request.tools.deep_view();
        assert(asked.len() == task.tools@.len() && offered.len() == request.tools@.len());
        assert forall|i: int| 0 <= i < task.tools@.len() implies {
            &&& (#[trigger] task.tools@[i]).name@ == request.tools@[i].name@
            &&& task.tools@[i].description@ == request.tools@[i].description@
            &&& content(task.tools@[i].parameters) == content(request.tools@[i].parameters)
        } by {
            assert(asked[i] == task.tools@[i].deep_view());
            assert(offered[i] == request.tools@[i].deep_view());
        }
    }
}

/// A request that starts sees the world that it brings, and else the one of its agent.
pub proof fn law_starting_shows_the_right_world(
    bridge: &mut LlmRuntimeBridge,
    request: &LlmRequest,
    today: Option<i64>,
    start: StandardStart,
)
    requires
        call_ensures(LlmRuntimeBridge::start_request, (bridge, request, today), start),
    ensures
        start.world.deep_view() == match request.world_override {
            Some(world) => Some(world.deep_view()),
            None => looked_up(old(bridge).worlds.deep_view(), request.agent@),
        },
        start.conversation is Some <==> request.conversation_id is Some,
        start.cancel is Some <==> request.conversation_id is Some,
{
}

/// A request that is sent goes to a worker as it is, or waits for the one in its thread.
pub proof fn law_sending_forwards_the_request(
    bridge: &mut LlmRuntimeBridge,
    request: LlmRequest,
    sending: Sending,
)
    requires
        call_ensures(LlmRuntimeBridge::send, (bridge, request), sending),
    ensures
        sending matches Sending::Forward(forwarded) ==> forwarded == request,
        sending is Park <==> (request.conversation_id matches Some(id)
            && old(bridge).active_conversations.deep_view().dom().contains(
            Key { agent: request.agent@, conversation_id: id@ },
        )),
{
}

/// A turn that was generated goes to the game as it is; a failure goes to the game as a
/// report, under the agent and the conversation of the request; nothing comes of a request
/// that was cancelled.
pub proof fn law_turns_go_to_the_game(
    bridge: &mut LlmRuntimeBridge,
    request: &LlmRequest,
    result: TurnOutcome,
    step: TurnStep,
)
    requires
        call_ensures(LlmRuntimeBridge::after_turn, (bridge, request, result), step),
    ensures
        match result {
            TurnOutcome::Generated(turn) => step matches TurnStep::Deliver(told)
                && told.deep_view() == turn.deep_view(),
            TurnOutcome::Failed(reason) => step matches TurnStep::Deliver(told) && told.agent@
                == request.agent@ && told.conversation_id.deep_view()
                == request.conversation_id.deep_view() && is_error(told.response@)
                && told.tool_calls@.len() == 0,
            TurnOutcome::Cancelled => step is Stop,
        },
{
    if let TurnOutcome::Failed(reason) = result {
        crate::turn::law_reported_errors_are_errors(reason@);
        if let TurnStep::Deliver(told) = step {
            assert(told.deep_view().tool_calls.len() == told.tool_calls@.len());
        }
    }
}

/// The utterances of a conversation that is accepted are those that were read, one for one:
/// each with its own speaker, its own text, trimmed, and its own tool calls.
pub proof fn law_planning_keeps_each_utterance(
    read: Result<Vec<PlannedUtterance>, String>,
    participants: &[String],
    max_utterances: usize,
    planned: Result<Vec<PlannedUtterance>, String>,
)
    requires
        call_ensures(plan_utterances, (read, participants, max_utterances), planned),
    ensures
        planned matches Ok(accepted) ==> {
            &&& read matches Ok(utterances)
            &&& accepted@.len() == utterances@.len()
            &&& forall|i: int|
                0 <= i < accepted@.len() ==> {
                    &&& (#[trigger] accepted@[i]).speaker@ == utterances@[i].speaker@
                    &&& accepted@[i].text@ == trimmed(utterances@[i].text@)
                    &&& accepted@[i].tool_calls.deep_view()
                        == utterances@[i].tool_calls.deep_view()
                }
        },
{
    law_accepting_keeps_each_utterance(
        crate::types::outcome(read),
        participants.deep_view(),
        max_utterances as nat,
    );
    if let Ok(accepted) = planned {
        if let Ok(utterances) = read {
            let kept = accepted.deep_view();
            let given = utterances.deep_view();
            assert(kept.len() == accepted@.len() && given.len() == utterances@.len());
            assert forall|i: int| 0 <= i < accepted@.len() implies {
                &&& (#[trigger] accepted@[i]).speaker@ == utterances@[i].speaker@
                &&& accepted@[i].text@ == trimmed(utterances@[i].text@)
                &&& accepted@[i].tool_calls.deep_view() == utterances@[i].tool_calls.deep_view()
            } by {
                assert(kept[i] == accepted@[i].deep_view());
                assert(given[i] == utterances@[i].deep_view());
            }
        }
    }
}

/// A chat reply that does not open with bold text is said as it is, and so is every other
/// without a label of the agent, unless it is a bare bold marker.
pub proof fn law_chat_replies_are_said_as_they_are(
    agent: &str,
    world: Option<&LlmWorldContext>,
    output: &str,
    said: String,
)
    requires
        call_ensures(normalize_plain_text_chat_response, (agent, world, output), said),
    ensures
        !has_prefix(output@, "**"@) && trimmed(output@) != "**"@ ==> said@ == output@,
        unlabelled(output@, own_labels(agent@, world.deep_view())) is None && trimmed(output@)
            != "**"@ ==> said@ == output@,
        said@ == "SILENT"@ ==> output@ == "SILENT"@ || has_prefix(output@, "**"@) || trimmed(
            output@,
        ) == "**"@,
{
    law_replies_without_a_label_are_said_unchanged(agent@, world.deep_view(), output@);
}

/// The lines of a playback queue are the spoken utterances of the conversation, in order,
/// each with its own speaker and its own text.
pub proof fn law_queues_hold_the_spoken_lines(
    conversation: &GeneratedConversation,
    queue: VecDeque<ScheduledUtterance>,
)
    requires
        call_ensures(build_playback_queue, (conversation,), queue),
    ensures
        ({
            let spoken = conversation.utterances.deep_view().filter(
                |utterance: Utterance| trimmed(utterance.text).len() > 0,
            );
            &&& queue@.len() == spoken.len()
            &&& forall|i: int|
                0 <= i < queue@.len() ==> {
                    &&& (#[trigger] queue@[i]).speaker@ == spoken[i].speaker
                    &&& queue@[i].text@ == spoken[i].text
                }
        }),
{
    let utterances = conversation.utterances.deep_view();
    law_queue_holds_the_spoken_lines(utterances);
    let lines = queue.deep_view();
    let spoken = crate::playback_laws::spoken(utterances);
    let left = lines.map_values(|line: crate::playback::Scheduled| (line.speaker, line.text));
    let right = spoken.map_values(|utterance: Utterance| (utterance.speaker, utterance.text));
    assert(left == right);
    assert(lines.len() == queue@.len());
    assert(left.len() == lines.len() && right.len() == spoken.len());
    assert forall|i: int| 0 <= i < queue@.len() implies {
        &&& (#[trigger] queue@[i]).speaker@ == spoken[i].speaker
        &&& queue@[i].text@ == spoken[i].text
    } by {
        assert(lines[i] == queue@[i].deep_view());
        assert(left[i] == right[i]);
    }
}

/// What is played is taken from the front of the queue and the rest stays: nothing is lost,
/// doubled or changed, and nothing else of the playback changes.
pub proof fn law_playing_splits_the_queue(
    transcript: &mut ConversationTranscriptState,
    playback: &mut ConversationPlaybackState,
    now: u128,
    played: Vec<ScheduledUtterance>,
)
    requires
        call_ensures(play_generated_conversation, (transcript, playback, now), played),
    ensures
        played.deep_view() + final(playback).deep_view().queue == old(playback).deep_view().queue,
        final(playback).deep_view().session_id == old(playback).deep_view().session_id,
        final(playback).deep_view().participants == old(playback).deep_view().participants,
        final(playback).deep_view().pending_fact_store_requests
            == old(playback).deep_view().pending_fact_store_requests,
        old(playback).started_at is None ==> played@.len() == 0,
{
    let queue = playback.deep_view().queue;
    let n = crate::playback::due_now(playback.deep_view(), now) as int;
    if let Some(started_at) = playback.started_at {
        crate::playback::law_playing_takes_what_is_due(
            queue,
            crate::playback::elapsed_since(started_at, now),
        );
    }
    assert(queue.take(n) + queue.skip(n) =~= queue);
    assert(played.deep_view().len() == played@.len());
}

/// The results of extractions leave what is to be played alone.
pub proof fn law_extraction_results_leave_the_queue_alone(
    playback: &mut ConversationPlaybackState,
    transcript: &mut ConversationTranscriptState,
    events: &[crate::events::LlmFactExtractionEvent],
    now: u128,
)
    requires
        call_ensures(record_fact_extraction_events, (playback, transcript, events, now), ()),
    ensures
        final(playback).deep_view().queue == old(playback).deep_view().queue,
        final(playback).deep_view().pending_fact_store_requests
            == old(playback).deep_view().pending_fact_store_requests,
        events@.len() <= old(playback).pending_fact_extraction_requests
            ==> final(playback).deep_view().pending_fact_extraction_requests + events@.len()
            == old(playback).pending_fact_extraction_requests,
{
}

/// A conversation is generated from what the game gives: a command with participants starts
/// one with its session, its situation, its facts and its participants, each once; one
/// without is refused.
pub proof fn law_generations_start_from_the_command(
    bridge: &mut LlmRuntimeBridge,
    session_id: String,
    participants: Vec<String>,
    initial_message: String,
    facts: Vec<String>,
    step: GenerationStep,
)
    requires
        call_ensures(
            LlmRuntimeBridge::generate_conversation,
            (bridge, session_id, participants, initial_message, facts),
            step,
        ),
    ensures
        step is Refuse <==> participants@.len() == 0,
        step matches GenerationStep::Start { request, cancel } ==> {
            &&& request.session_id@ == session_id@
            &&& request.initial_message@ == initial_message@
            &&& request.facts.deep_view() == facts.deep_view()
            &&& forall|id: Seq<char>| #[trigger]
                request.participants.deep_view().contains(id)
                    <==> participants.deep_view().contains(id)
        },
        step matches GenerationStep::Refuse(event) ==> (event
            matches LlmConversationGenerationEvent::ConversationGenerationFailed {
            session_id: told,
            reason,
        } && told@ == session_id@),
{
    crate::generation::law_participants_are_kept_once(participants.deep_view());
}

/// The game is told the utterances of the latest generation of a session, all of them and
/// in order, and nothing of an older one.
pub proof fn law_generated_utterances_go_to_the_game(
    bridge: &mut LlmRuntimeBridge,
    turn: ConversationGenerationResult,
    event: Option<LlmConversationGenerationEvent>,
)
    requires
        call_ensures(LlmRuntimeBridge::handle_generated_conversation, (bridge, turn), event),
    ensures
        event is Some <==> crate::sessions::is_latest(
            old(bridge).deep_view(),
            turn.session_id@,
            turn.generation,
        ),
        event matches Some(event) ==> match turn.result {
            Ok(utterances) => {
                &&& event matches LlmConversationGenerationEvent::ConversationGenerated {
                    conversation,
                }
                &&& conversation.session_id@ == turn.session_id@
                &&& conversation.utterances.deep_view() == utterances.deep_view()
            },
            Err(reason) => {
                &&& event matches LlmConversationGenerationEvent::ConversationGenerationFailed {
                    session_id,
                    reason: told,
                }
                &&& session_id@ == turn.session_id@
                &&& told@ == reason@
            },
        },
{
}

/// Settling the calls of a turn leaves who says what where as it is.
pub proof fn law_settling_keeps_what_is_said(
    turn: LlmTurn,
    mode: LlmResponseMode,
    tools: &[LlmToolDefinition],
    settled: LlmTurn,
)
    requires
        call_ensures(normalize_and_filter_tool_calls, (turn, mode, tools), settled),
    ensures
        settled.agent@ == turn.agent@,
        settled.conversation_id.deep_view() == turn.conversation_id.deep_view(),
        settled.response@ == turn.response@,
{
}

/// The game is told of a turn what the turn holds.
pub proof fn law_responses_tell_of_the_turn(turn: LlmTurn, told: LlmResponse)
    requires
        call_ensures(response_of_turn, (turn,), told),
    ensures
        told.agent@ == turn.agent@,
        told.conversation_id.deep_view() == turn.conversation_id.deep_view(),
        told.tool_calls.deep_view() == turn.tool_calls.deep_view(),
        told.response matches Some(text) ==> text@ == turn.response@,
        told.response is Some <==> turn.response@.len() > 0 && turn.tool_calls@.len() == 0,
{
    assert(turn.deep_view().tool_calls.len() == turn.tool_calls@.len());
    assert(told.response.deep_view() is Some <==> told.response is Some);
}

/// A thread that is asked for is the one that is kept, and there is none where none is.
pub proof fn law_threads_are_given_as_they_are_kept(
    bridge: &LlmRuntimeBridge,
    agent: &str,
    conversation_id: &str,
    thread: Option<crate::types::LlmConversationState>,
)
    requires
        call_ensures(
            LlmRuntimeBridge::conversation_state,
            (bridge, agent, conversation_id),
            thread,
        ),
    ensures
        ({
            let key = Key { agent: agent@, conversation_id: conversation_id@ };
            let kept = bridge.conversations.deep_view();
            &&& thread is Some <==> kept.dom().contains(key)
            &&& thread matches Some(thread) ==> thread.deep_view() == kept[key]
        }),
{
    assert(thread.deep_view() is Some <==> thread is Some);
}

/// Turns are generated by the profile for turns, and facts are extracted by the profile for
/// facts, wherever they come from.
pub proof fn law_work_is_routed_to_its_profile(
    routing: &LlmTaskRoutingConfig,
    task: RoutedTaskKind,
    profile: &str,
)
    requires
        call_ensures(LlmTaskRoutingConfig::profile_for, (routing, task), profile),
    ensures
        task == RoutedTaskKind::TurnGeneration ==> profile@ == routing.turn_generation_profile@,
        task != RoutedTaskKind::TurnGeneration ==> profile@ == routing.fact_extraction_profile@,
{
}

/// A model is sampled as its profile says: with its temperature, its nucleus and its limit;
/// the likeliest token alone is taken where neither of the first two is set, and a penalty
/// counts unless it is one.
pub proof fn law_models_are_sampled_as_configured(
    profile: &LlmRuntimeProfileConfig,
    sampling: SamplingPlan,
)
    requires
        call_ensures(LlmRuntimeProfileConfig::sampling_plan, (profile,), sampling),
    ensures
        sampling.temperature == profile.temperature,
        sampling.top_p == profile.top_p,
        sampling.max_len == profile.max_new_tokens,
        sampling.deterministic <==> profile.temperature is None && profile.top_p is None,
        profile.repeat_penalty.bits == ONE <==> sampling.repetition_penalty is None,
        sampling.repetition_penalty matches Some(penalty) ==> penalty == profile.repeat_penalty,
{
}

/// Tools are exposed exactly where there are some, the profile calls tools, and the reply is
/// not that of a local chat.
pub proof fn law_tools_are_exposed_where_they_can_be_called(
    mode: LlmResponseMode,
    tools: &[LlmToolDefinition],
    tool_calling: LlmToolCallingMode,
    exposed: bool,
)
    requires
        call_ensures(exposes_tools, (mode, tools, tool_calling), exposed),
    ensures
        mode == LlmResponseMode::PlainTextChat ==> !exposed,
        tools@.len() == 0 ==> !exposed,
        tool_calling == LlmToolCallingMode::Disabled ==> !exposed,
        mode == LlmResponseMode::StructuredJson && tools@.len() > 0 && tool_calling
            != LlmToolCallingMode::Disabled ==> exposed,
{
}

/// A tool has parameters exactly where its schema is an object that is not empty.
pub proof fn law_schemas_with_members_are_parameters(tool: &LlmToolDefinition, found: bool)
    requires
        call_ensures(has_parameters, (tool,), found),
    ensures
        content(tool.parameters) matches Json::Object(members) ==> (found <==> members.len() > 0),
        !(content(tool.parameters) is Object) ==> !found,
{
}

/// A name or a description that is given is the one that is used.
pub proof fn law_given_names_are_used(
    given: String,
    variant: &str,
    lines: &[String],
    name: String,
    of_tool: String,
    of_field: String,
)
    requires
        call_ensures(tool_name, (Some(given), variant), name),
        call_ensures(tool_description, (Some(given), lines, variant), of_tool),
        call_ensures(field_description, (Some(given), lines, variant), of_field),
    ensures
        name@ == given@,
        of_tool@ == given@,
        of_field@ == given@,
{
}

/// A name that is not given is made from the variant's; a description that neither is given
/// nor stands in a doc comment is made from the name in words.
pub proof fn law_missing_names_are_made(
    variant: &str,
    lines: &[String],
    name: String,
    of_tool: String,
    of_field: String,
)
    requires
        lines@.len() == 0,
        call_ensures(tool_name, (None, variant), name),
        call_ensures(tool_description, (None, lines, variant), of_tool),
        call_ensures(field_description, (None, lines, variant), of_field),
    ensures
        name@ == snake_cased(glyphs(variant@)),
        of_tool@ == humanized(glyphs(variant@)) + " tool"@,
        of_field@ == humanized(glyphs(variant@)),
{
    assert(lines.deep_view().len() == 0);
}

/// Models whose weights are quantized in a file are loaded from that file, and only the one
/// with dense weights is loaded densely.
pub proof fn law_weights_are_loaded_as_stored(model: LlmModel, kind: ModelSourceKind)
    requires
        call_ensures(LlmModel::source_kind, (model,), kind),
    ensures
        kind is DenseSafetensors <==> model == LlmModel::SmolLM2_360MInstruct,
        kind is SmolLM3Q4 <==> model == LlmModel::SmolLM3_3BQ4KM,
        kind matches ModelSourceKind::QuantizedLlamaGguf { gguf_filename }
            ==> crate::model::gguf_file(model) == Some(gguf_filename@),
{
}

/// The world that is set for an agent is the one that is kept for it; the worlds of others,
/// and all threads, stay as they are.
pub proof fn law_worlds_are_kept_as_set(
    bridge: &mut LlmRuntimeBridge,
    agent: String,
    world: LlmWorldContext,
    other: Seq<char>,
)
    requires
        call_ensures(LlmRuntimeBridge::set_world, (bridge, agent, world), ()),
    ensures
        looked_up(final(bridge).deep_view().worlds, agent@) == Some(world.deep_view()),
        other != agent@ ==> looked_up(final(bridge).deep_view().worlds, other) == looked_up(
            old(bridge).deep_view().worlds,
            other,
        ),
        final(bridge).deep_view().conversations == old(bridge).deep_view().conversations,
        final(bridge).deep_view().pending == old(bridge).deep_view().pending,
{
}

/// The facts that were extracted for storage are those that the result holds, under the
/// request's id and for its agents.
pub proof fn law_storage_results_hold_what_was_extracted(
    bridge: &mut LlmRuntimeBridge,
    request: FactStoreRequest,
    extracted: FactsOutcome,
    today: Option<i64>,
    done: FactStoreResult,
)
    requires
        call_ensures(
            LlmRuntimeBridge::finish_fact_store_on,
            (bridge, request, extracted, today),
            done,
        ),
    ensures
        done.request_id@ == request.request_id@,
        done.agents.deep_view() == request.agents.deep_view(),
        match extracted {
            FactsOutcome::Extracted(facts) => done.result matches Ok(stored) && stored.deep_view()
                == facts.deep_view(),
            _ => done.result is Err && final(bridge).deep_view() == old(bridge).deep_view(),
        },
{
}

/// A conversation that was generated is played from the start: its spoken utterances stand
/// in the queue, and a command of each kind is given for each of them. After a failure
/// nothing is played and no command is given.
pub proof fn law_generated_conversations_are_played(
    transcript: &mut ConversationTranscriptState,
    playback: &mut ConversationPlaybackState,
    event: &LlmConversationGenerationEvent,
    now: u128,
    commands: FactCommands,
)
    requires
        call_ensures(
            handle_generated_conversation_event,
            (transcript, playback, event, now),
            commands,
        ),
    ensures
        match event {
            LlmConversationGenerationEvent::ConversationGenerated { conversation } => {
                let spoken = crate::playback_laws::spoken(conversation.utterances.deep_view());
                &&& final(playback).deep_view().queue.map_values(
                    |line: crate::playback::Scheduled| (line.speaker, line.text),
                ) == spoken.map_values(
                    |utterance: Utterance| (utterance.speaker, utterance.text),
                )
                &&& final(playback).deep_view().session_id == Some(conversation.session_id@)
                &&& final(playback).deep_view().participants
                    == conversation.participants.deep_view()
                &&& final(playback).deep_view().started_at == Some(now)
                &&& commands.store@.len() == spoken.len()
            },
            LlmConversationGenerationEvent::ConversationGenerationFailed { session_id, reason } => {
                &&& final(playback).deep_view().queue.len() == 0
                &&& final(playback).deep_view().session_id == Some(session_id@)
                &&& final(transcript).deep_view().session_id == Some(session_id@)
                &&& final(transcript).deep_view().completed_at == Some(now)
                &&& commands.extraction@.len() == 0
                &&& commands.store@.len() == 0
            },
        },
{
    if let LlmConversationGenerationEvent::ConversationGenerated { conversation } = event {
        law_queue_holds_the_spoken_lines(conversation.utterances.deep_view());
        crate::playback_laws::law_store_commands_carry_their_utterances(conversation.deep_view());
        assert(commands.store.deep_view().len() == commands.store@.len());
    }
}

/// The results of storage leave what is to be played and what is to be extracted alone, and
/// each of them is one less to wait for.
pub proof fn law_storage_results_leave_the_queue_alone(
    transcript: &mut ConversationTranscriptState,
    playback: &mut ConversationPlaybackState,
    ledger: &mut ParticipantFactLedger,
    events: &[crate::events::LlmFactStoreEvent],
    now: u128,
    today: Option<i64>,
)
    requires
        call_ensures(
            record_fact_store_events_on,
            (transcript, playback, ledger, events, now, today),
            (),
        ),
    ensures
        final(playback).deep_view().queue == old(playback).deep_view().queue,
        final(playback).deep_view().pending_fact_extraction_requests
            == old(playback).deep_view().pending_fact_extraction_requests,
        events@.len() <= old(playback).pending_fact_store_requests
            ==> final(playback).deep_view().pending_fact_store_requests + events@.len()
            == old(playback).pending_fact_store_requests,
        events@.len() == 0 ==> final(ledger).facts_by_agent.deep_view()
            == old(ledger).facts_by_agent.deep_view(),
{
    assert(events.deep_view().len() == events@.len());
}

/// A generation that is taken up asks for what its request describes, in its session.
pub proof fn law_generations_are_taken_up_as_requested(
    bridge: &mut LlmRuntimeBridge,
    request: &ConversationGenerationRequest,
    taken: (TurnGenerationTask, u64),
)
    requires
        call_ensures(LlmRuntimeBridge::start_generated_request, (bridge, request), taken),
    ensures
        taken.0.prompt@ == generation_prompt(request.deep_view()),
        occurs(taken.0.prompt@, request.initial_message@),
        taken.0.conversation_id.deep_view() == Some(request.session_id@),
        looked_up(final(bridge).deep_view().generated_cancellations, request.session_id@) == Some(
            taken.1,
        ),
{
    law_generation_prompts_show_everything(request.deep_view());
}

/// A reply with a message is a turn of the agent and of the conversation that it was asked
/// of; one without is none.
pub proof fn law_replies_become_turns_of_their_agent<F: Fn(&str) -> ReplyCandidate>(
    task: &TurnGenerationTask,
    message: Option<&ModelMessage>,
    parser: F,
    turn: Result<LlmTurn, LlmRuntimeError>,
)
    requires
        call_ensures(finish_turn::<F>, (task, message, parser), turn),
    ensures
        turn is Ok <==> message is Some,
        turn matches Ok(turn) ==> turn.agent@ == task.agent@ && turn.conversation_id.deep_view()
            == task.conversation_id.deep_view(),
        turn matches Ok(turn) ==> forall|i: int|
            0 <= i < turn.tool_calls@.len() ==> is_offered(
                task.tools.deep_view(),
                (#[trigger] turn.tool_calls@[i]).tool@,
            ),
{
    if let Some(message) = message {
        if let Ok(turn) = turn {
            let candidates = choose|candidates: Vec<ReplyCandidate>|
                turn.deep_view() == finished_turn(
                    task.deep_view(),
                    message.deep_view(),
                    #[trigger] candidates.deep_view(),
                );
            let read = reply_turn(
                task.deep_view().agent,
                task.deep_view().conversation_id,
                task.response_mode,
                task.deep_view().tools,
                task.deep_view().world,
                message.deep_view(),
                candidates.deep_view(),
            );
            law_only_offered_tools_are_called(read, task.response_mode, task.deep_view().tools);
            assert(turn.deep_view().tool_calls.len() == turn.tool_calls@.len());
            assert forall|i: int| 0 <= i < turn.tool_calls@.len() implies is_offered(
                task.tools.deep_view(),
                (#[trigger] turn.tool_calls@[i]).tool@,
            ) by {
                assert(turn.deep_view().tool_calls[i] == turn.tool_calls@[i].deep_view());
            }
        }
    }
}

/// What the model is asked for a structured turn ends with the prompt of the task.
pub proof fn law_the_model_is_asked_the_prompt(
    task: &TurnGenerationTask,
    tool_calling: LlmToolCallingMode,
    limit: usize,
    messages: Option<PromptMessages>,
)
    requires
        call_ensures(turn_messages_within, (task, tool_calling, limit), messages),
        task.response_mode == LlmResponseMode::StructuredJson,
    ensures
        messages matches Some(messages) ==> has_suffix(messages.user@, task.prompt@ + "\n"@),
        task.world is None ==> messages is Some,
{
    law_tasks_are_shown_to_the_model(task.deep_view(), tool_calling);
}

/// The message about a profile that is missing names it, and that about an action that
/// could not be handed over gives the reason.
pub proof fn law_messages_give_the_reason(
    profile_id: &str,
    missing: String,
    error: &LLMActionError,
    message: String,
)
    requires
        call_ensures(missing_profile, (profile_id,), missing),
        call_ensures(LLMActionError::message, (error,), message),
    ensures
        occurs(missing@, profile_id@),
        error matches LLMActionError::Dispatch(reason) ==> has_suffix(message@, reason@),
{
    law_parts_stand_in_sums();
    law_ends_of_sums();
}

/// A refresh draws facts from the text that is pending, and from nothing where none is.
pub proof fn law_refreshes_draw_from_what_is_pending(
    conversation: &mut crate::types::LlmConversationState,
    today: Option<i64>,
    text: Option<String>,
)
    requires
        call_ensures(begin_fact_refresh, (conversation, today), text),
    ensures
        text.deep_view() == pending_text(old(conversation).deep_view()),
        final(conversation).deep_view().facts == unexpired(
            old(conversation).deep_view().facts,
            today,
        ),
{
    law_starting_a_refresh_loses_nothing_pending(old(conversation).deep_view(), today);
}

} // verus!
