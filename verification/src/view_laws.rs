//! What is seen of the values that the library takes and gives: all of what they hold.

use crate::actions::{
    ActionAttributes, ActionField, ActionFields, ActionVariant, ArgumentPlan, AttributeItem,
    ItemValue, ToolPlan,
};
use crate::bridge::{
    ConversationGenerationState, ConversationKey, LlmRuntimeBridge, RefreshOutcome, TurnOutcome,
};
use crate::config::{
    LlmRuntimeConfig, LlmRuntimeError, LlmRuntimeProfileConfig, LlmTaskRoutingConfig,
    ValidatedLlmRuntimeConfig,
};
use crate::events::{
    LlmConversationCommand, LlmConversationGenerationCommand, LlmConversationGenerationEvent,
    LlmFactExtractionCommand, LlmFactExtractionEvent, LlmFactStoreCommand, LlmFactStoreEvent,
};
use crate::generation::{ConversationGenerationRequest, ConversationParticipantProfile};
use crate::json::content;
use crate::playback::{ConversationPlaybackState, ConversationTranscriptState, ScheduledUtterance};
use crate::reply::{ModelMessage, ModelToolCall, ReplyCandidate, TurnFields};
use crate::sessions::{FactExtractionRequest, FactStoreRequest, FactsOutcome};
use crate::turn::TurnGenerationTask;
use crate::types::{
    GeneratedConversation, LlmConversationEntry, LlmConversationFact, LlmConversationState,
    LlmRequest, LlmResponse, LlmToolCall, LlmToolDefinition, LlmTurn, LlmWorldContext,
    PlannedUtterance,
};
use vstd::prelude::*;

verus! {

/// All of a tool definition is seen: two tool definitions that look the same hold the
/// same.
pub proof fn law_tool_definitions_are_seen_whole(a: LlmToolDefinition, b: LlmToolDefinition)
    requires
        a.deep_view() == b.deep_view(),
    ensures
        a.name@ == b.name@,
        a.description@ == b.description@,
        content(a.parameters) == content(b.parameters),
{
}

/// All of a tool call is seen: two tool calls that look the same hold the same.
pub proof fn law_tool_calls_are_seen_whole(a: LlmToolCall, b: LlmToolCall)
    requires
        a.deep_view() == b.deep_view(),
    ensures
        a.tool@ == b.tool@,
        content(a.arguments) == content(b.arguments),
{
}

/// All of a turn is seen: two turns that look the same hold the same.
pub proof fn law_turns_are_seen_whole(a: LlmTurn, b: LlmTurn)
    requires
        a.deep_view() == b.deep_view(),
    ensures
        a.agent@ == b.agent@,
        a.conversation_id.deep_view() == b.conversation_id.deep_view(),
        a.response@ == b.response@,
        a.tool_calls.deep_view() == b.tool_calls.deep_view(),
{
}

/// All of a fact is seen: two facts that look the same hold the same.
pub proof fn law_facts_are_seen_whole(a: LlmConversationFact, b: LlmConversationFact)
    requires
        a.deep_view() == b.deep_view(),
    ensures
        a.fact@ == b.fact@,
        a.importance == b.importance,
        a.expiry@ == b.expiry@,
{
}

/// All of an entry is seen: two entries that look the same hold the same.
pub proof fn law_entries_are_seen_whole(a: LlmConversationEntry, b: LlmConversationEntry)
    requires
        a.deep_view() == b.deep_view(),
    ensures
        a.speaker@ == b.speaker@,
        a.text@ == b.text@,
        a.kind == b.kind,
        a.extractable == b.extractable,
        a.sequence == b.sequence,
{
}

/// All of a thread is seen: two threads that look the same hold the same.
pub proof fn law_threads_are_seen_whole(a: LlmConversationState, b: LlmConversationState)
    requires
        a.deep_view() == b.deep_view(),
    ensures
        a.facts.deep_view() == b.facts.deep_view(),
        a.entries.deep_view() == b.entries.deep_view(),
        a.processed_entry_count == b.processed_entry_count,
        a.next_entry_sequence == b.next_entry_sequence,
{
}

/// All of a world is seen: two worlds that look the same hold the same.
pub proof fn law_worlds_are_seen_whole(a: LlmWorldContext, b: LlmWorldContext)
    requires
        a.deep_view() == b.deep_view(),
    ensures
        content(a.world_view) == content(b.world_view),
        content(a.world_schema) == content(b.world_schema),
{
}

/// All of a request is seen: two requests that look the same hold the same.
pub proof fn law_requests_are_seen_whole(a: LlmRequest, b: LlmRequest)
    requires
        a.deep_view() == b.deep_view(),
    ensures
        a.agent@ == b.agent@,
        a.conversation_id.deep_view() == b.conversation_id.deep_view(),
        a.world_override.deep_view() == b.world_override.deep_view(),
        a.prompt@ == b.prompt@,
        a.response_mode == b.response_mode,
        a.tools.deep_view() == b.tools.deep_view(),
{
}

/// All of a response is seen: two responses that look the same hold the same.
pub proof fn law_responses_are_seen_whole(a: LlmResponse, b: LlmResponse)
    requires
        a.deep_view() == b.deep_view(),
    ensures
        a.agent@ == b.agent@,
        a.conversation_id.deep_view() == b.conversation_id.deep_view(),
        a.response.deep_view() == b.response.deep_view(),
        a.tool_calls.deep_view() == b.tool_calls.deep_view(),
{
}

/// All of an utterance is seen: two utterances that look the same hold the same.
pub proof fn law_utterances_are_seen_whole(a: PlannedUtterance, b: PlannedUtterance)
    requires
        a.deep_view() == b.deep_view(),
    ensures
        a.speaker@ == b.speaker@,
        a.text@ == b.text@,
        a.tool_calls.deep_view() == b.tool_calls.deep_view(),
{
}

/// All of a generated conversation is seen: two generated conversations that look the
/// same hold the same.
pub proof fn law_generated_conversations_are_seen_whole(
    a: GeneratedConversation,
    b: GeneratedConversation,
)
    requires
        a.deep_view() == b.deep_view(),
    ensures
        a.session_id@ == b.session_id@,
        a.participants.deep_view() == b.participants.deep_view(),
        a.utterances.deep_view() == b.utterances.deep_view(),
{
}

/// All of a command on a thread is seen: two commands on a thread that look the same are
/// the same and hold the same.
pub proof fn law_commands_on_a_thread_are_seen_whole(
    a: LlmConversationCommand,
    b: LlmConversationCommand,
)
    requires
        a.deep_view() == b.deep_view(),
    ensures
        match (a, b) {
            (
                LlmConversationCommand::Reset { agent, conversation_id },
                LlmConversationCommand::Reset {
                    agent: other_agent,
                    conversation_id: other_conversation_id,
                },
            ) => {
                &&& agent@ == other_agent@
                &&& conversation_id@ == other_conversation_id@
            },
            (
                LlmConversationCommand::Compact { agent, conversation_id },
                LlmConversationCommand::Compact {
                    agent: other_agent,
                    conversation_id: other_conversation_id,
                },
            ) => {
                &&& agent@ == other_agent@
                &&& conversation_id@ == other_conversation_id@
            },
            (
                LlmConversationCommand::AppendMessage { agent, conversation_id, message },
                LlmConversationCommand::AppendMessage {
                    agent: other_agent,
                    conversation_id: other_conversation_id,
                    message: other_message,
                },
            ) => {
                &&& agent@ == other_agent@
                &&& conversation_id@ == other_conversation_id@
                &&& message@ == other_message@
            },
            _ => false,
        },
{
}

/// All of a command on a generation is seen: two commands on a generation that look the
/// same are the same and hold the same.
pub proof fn law_commands_on_a_generation_are_seen_whole(
    a: LlmConversationGenerationCommand,
    b: LlmConversationGenerationCommand,
)
    requires
        a.deep_view() == b.deep_view(),
    ensures
        match (a, b) {
            (
                LlmConversationGenerationCommand::GenerateConversation {
                    session_id,
                    participants,
                    initial_message,
                    facts,
                },
                LlmConversationGenerationCommand::GenerateConversation {
                    session_id: other_session_id,
                    participants: other_participants,
                    initial_message: other_initial_message,
                    facts: other_facts,
                },
            ) => {
                &&& session_id@ == other_session_id@
                &&& participants.deep_view() == other_participants.deep_view()
                &&& initial_message@ == other_initial_message@
                &&& facts.deep_view() == other_facts.deep_view()
            },
            (
                LlmConversationGenerationCommand::CancelConversation { session_id },
                LlmConversationGenerationCommand::CancelConversation {
                    session_id: other_session_id,
                },
            ) => session_id@ == other_session_id@,
            _ => false,
        },
{
}

/// All of an event of a generation is seen: two events of a generation that look the same
/// are the same and hold the same.
pub proof fn law_events_of_a_generation_are_seen_whole(
    a: LlmConversationGenerationEvent,
    b: LlmConversationGenerationEvent,
)
    requires
        a.deep_view() == b.deep_view(),
    ensures
        match (a, b) {
            (
                LlmConversationGenerationEvent::ConversationGenerated { conversation },
                LlmConversationGenerationEvent::ConversationGenerated {
                    conversation: other_conversation,
                },
            ) => conversation.deep_view() == other_conversation.deep_view(),
            (
                LlmConversationGenerationEvent::ConversationGenerationFailed { session_id, reason },
                LlmConversationGenerationEvent::ConversationGenerationFailed {
                    session_id: other_session_id,
                    reason: other_reason,
                },
            ) => {
                &&& session_id@ == other_session_id@
                &&& reason@ == other_reason@
            },
            _ => false,
        },
{
}

/// All of a command to extract facts is seen: two commands to extract facts that look the
/// same are the same and hold the same.
pub proof fn law_commands_to_extract_facts_are_seen_whole(
    a: LlmFactExtractionCommand,
    b: LlmFactExtractionCommand,
)
    requires
        a.deep_view() == b.deep_view(),
    ensures
        match (a, b) {
            (
                LlmFactExtractionCommand::ExtractFactFromUtterance {
                    request_id,
                    session_id,
                    utterance_index,
                    utterance,
                },
                LlmFactExtractionCommand::ExtractFactFromUtterance {
                    request_id: other_request_id,
                    session_id: other_session_id,
                    utterance_index: other_utterance_index,
                    utterance: other_utterance,
                },
            ) => {
                &&& request_id@ == other_request_id@
                &&& session_id@ == other_session_id@
                &&& utterance_index == other_utterance_index
                &&& utterance.deep_view() == other_utterance.deep_view()
            },
        },
{
}

/// All of a command to store facts is seen: two commands to store facts that look the
/// same are the same and hold the same.
pub proof fn law_commands_to_store_facts_are_seen_whole(
    a: LlmFactStoreCommand,
    b: LlmFactStoreCommand,
)
    requires
        a.deep_view() == b.deep_view(),
    ensures
        match (a, b) {
            (
                LlmFactStoreCommand::StoreFactsFromPrompt { request_id, text, agents },
                LlmFactStoreCommand::StoreFactsFromPrompt {
                    request_id: other_request_id,
                    text: other_text,
                    agents: other_agents,
                },
            ) => {
                &&& request_id@ == other_request_id@
                &&& text@ == other_text@
                &&& agents.deep_view() == other_agents.deep_view()
            },
        },
{
}

/// All of an event of an extraction is seen: two events of an extraction that look the
/// same are the same and hold the same.
pub proof fn law_events_of_an_extraction_are_seen_whole(
    a: LlmFactExtractionEvent,
    b: LlmFactExtractionEvent,
)
    requires
        a.deep_view() == b.deep_view(),
    ensures
        match (a, b) {
            (
                LlmFactExtractionEvent::FactsExtractedFromUtterance {
                    request_id,
                    session_id,
                    utterance_index,
                    utterance,
                    facts,
                },
                LlmFactExtractionEvent::FactsExtractedFromUtterance {
                    request_id: other_request_id,
                    session_id: other_session_id,
                    utterance_index: other_utterance_index,
                    utterance: other_utterance,
                    facts: other_facts,
                },
            ) => {
                &&& request_id@ == other_request_id@
                &&& session_id@ == other_session_id@
                &&& utterance_index == other_utterance_index
                &&& utterance.deep_view() == other_utterance.deep_view()
                &&& facts.deep_view() == other_facts.deep_view()
            },
            (
                LlmFactExtractionEvent::FactExtractionFailedForUtterance {
                    request_id,
                    session_id,
                    utterance_index,
                    utterance,
                    reason,
                },
                LlmFactExtractionEvent::FactExtractionFailedForUtterance {
                    request_id: other_request_id,
                    session_id: other_session_id,
                    utterance_index: other_utterance_index,
                    utterance: other_utterance,
                    reason: other_reason,
                },
            ) => {
                &&& request_id@ == other_request_id@
                &&& session_id@ == other_session_id@
                &&& utterance_index == other_utterance_index
                &&& utterance.deep_view() == other_utterance.deep_view()
                &&& reason@ == other_reason@
            },
            _ => false,
        },
{
}

/// All of an event of a storage is seen: two events of a storage that look the same are
/// the same and hold the same.
pub proof fn law_events_of_a_storage_are_seen_whole(a: LlmFactStoreEvent, b: LlmFactStoreEvent)
    requires
        a.deep_view() == b.deep_view(),
    ensures
        match (a, b) {
            (
                LlmFactStoreEvent::FactsStored { request_id, agents, facts },
                LlmFactStoreEvent::FactsStored {
                    request_id: other_request_id,
                    agents: other_agents,
                    facts: other_facts,
                },
            ) => {
                &&& request_id@ == other_request_id@
                &&& agents.deep_view() == other_agents.deep_view()
                &&& facts.deep_view() == other_facts.deep_view()
            },
            (
                LlmFactStoreEvent::FactStorageFailed { request_id, agents, reason },
                LlmFactStoreEvent::FactStorageFailed {
                    request_id: other_request_id,
                    agents: other_agents,
                    reason: other_reason,
                },
            ) => {
                &&& request_id@ == other_request_id@
                &&& agents.deep_view() == other_agents.deep_view()
                &&& reason@ == other_reason@
            },
            _ => false,
        },
{
}

/// All of a profile is seen: two profiles that look the same hold the same.
pub proof fn law_profiles_are_seen_whole(a: LlmRuntimeProfileConfig, b: LlmRuntimeProfileConfig)
    requires
        a.deep_view() == b.deep_view(),
    ensures
        a.id@ == b.id@,
        a.model == b.model,
        a.cache_dir.deep_view() == b.cache_dir.deep_view(),
        a.use_gpu == b.use_gpu,
        a.tool_calling == b.tool_calling,
        a.worker_count == b.worker_count,
        a.seed == b.seed,
        a.temperature == b.temperature,
        a.top_p == b.top_p,
        a.repeat_penalty == b.repeat_penalty,
        a.repeat_last_n == b.repeat_last_n,
        a.max_new_tokens == b.max_new_tokens,
{
}

/// All of a routing is seen: two routings that look the same hold the same.
pub proof fn law_routings_are_seen_whole(a: LlmTaskRoutingConfig, b: LlmTaskRoutingConfig)
    requires
        a.deep_view() == b.deep_view(),
    ensures
        a.turn_generation_profile@ == b.turn_generation_profile@,
        a.fact_extraction_profile@ == b.fact_extraction_profile@,
{
}

/// All of a set of options is seen: two sets of options that look the same hold the same.
pub proof fn law_sets_of_options_are_seen_whole(a: LlmRuntimeConfig, b: LlmRuntimeConfig)
    requires
        a.deep_view() == b.deep_view(),
    ensures
        a.profiles.deep_view() == b.profiles.deep_view(),
        a.routing.deep_view() == b.routing.deep_view(),
{
}

/// All of a valid set of options is seen: two valid sets of options that look the same
/// hold the same.
pub proof fn law_valid_sets_of_options_are_seen_whole(
    a: ValidatedLlmRuntimeConfig,
    b: ValidatedLlmRuntimeConfig,
)
    requires
        a.deep_view() == b.deep_view(),
    ensures
        a.profiles.deep_view() == b.profiles.deep_view(),
        a.routing.deep_view() == b.routing.deep_view(),
{
}

/// All of an error is seen: two errors that look the same are the same and hold the same.
pub proof fn law_errors_are_seen_whole(a: LlmRuntimeError, b: LlmRuntimeError)
    requires
        a.deep_view() == b.deep_view(),
    ensures
        match (a, b) {
            (LlmRuntimeError::Json(held), LlmRuntimeError::Json(other)) => held@ == other@,
            (LlmRuntimeError::Mistral(held), LlmRuntimeError::Mistral(other)) => held@ == other@,
            (LlmRuntimeError::MissingWeights, LlmRuntimeError::MissingWeights) => true,
            (LlmRuntimeError::UnsupportedModel(held), LlmRuntimeError::UnsupportedModel(other)) => {
                held@ == other@
            },
            (LlmRuntimeError::MissingProfiles, LlmRuntimeError::MissingProfiles) => true,
            (LlmRuntimeError::InvalidProfileId, LlmRuntimeError::InvalidProfileId) => true,
            (LlmRuntimeError::DuplicateProfileId(held), LlmRuntimeError::DuplicateProfileId(other)) => {
                held@ == other@
            },
            (
                LlmRuntimeError::MissingRoutedProfile { route, profile_id },
                LlmRuntimeError::MissingRoutedProfile {
                    route: other_route,
                    profile_id: other_profile_id,
                },
            ) => {
                &&& route@ == other_route@
                &&& profile_id@ == other_profile_id@
            },
            (LlmRuntimeError::MissingEosToken, LlmRuntimeError::MissingEosToken) => true,
            (LlmRuntimeError::InvalidTurn(held), LlmRuntimeError::InvalidTurn(other)) => {
                held@ == other@
            },
            (LlmRuntimeError::Cancelled, LlmRuntimeError::Cancelled) => true,
            _ => false,
        },
{
}

/// All of a participant is seen: two participants that look the same hold the same.
pub proof fn law_participants_are_seen_whole(
    a: ConversationParticipantProfile,
    b: ConversationParticipantProfile,
)
    requires
        a.deep_view() == b.deep_view(),
    ensures
        a.id@ == b.id@,
        a.display_name@ == b.display_name@,
        a.persona@ == b.persona@,
        a.current_goal@ == b.current_goal@,
{
}

/// All of a generation request is seen: two generation requests that look the same hold
/// the same.
pub proof fn law_generation_requests_are_seen_whole(
    a: ConversationGenerationRequest,
    b: ConversationGenerationRequest,
)
    requires
        a.deep_view() == b.deep_view(),
    ensures
        a.session_id@ == b.session_id@,
        a.generation == b.generation,
        a.participants.deep_view() == b.participants.deep_view(),
        a.initial_message@ == b.initial_message@,
        a.facts.deep_view() == b.facts.deep_view(),
        a.participant_profiles.deep_view() == b.participant_profiles.deep_view(),
        a.tool_calling == b.tool_calling,
{
}

/// All of an extraction request is seen: two extraction requests that look the same hold
/// the same.
pub proof fn law_extraction_requests_are_seen_whole(
    a: FactExtractionRequest,
    b: FactExtractionRequest,
)
    requires
        a.deep_view() == b.deep_view(),
    ensures
        a.request_id@ == b.request_id@,
        a.session_id@ == b.session_id@,
        a.utterance_index == b.utterance_index,
        a.utterance.deep_view() == b.utterance.deep_view(),
{
}

/// All of a store request is seen: two store requests that look the same hold the same.
pub proof fn law_store_requests_are_seen_whole(a: FactStoreRequest, b: FactStoreRequest)
    requires
        a.deep_view() == b.deep_view(),
    ensures
        a.request_id@ == b.request_id@,
        a.text@ == b.text@,
        a.agents.deep_view() == b.agents.deep_view(),
{
}

/// All of an outcome of an extraction is seen: two outcomes of an extraction that look
/// the same are the same and hold the same.
pub proof fn law_outcomes_of_an_extraction_are_seen_whole(a: FactsOutcome, b: FactsOutcome)
    requires
        a.deep_view() == b.deep_view(),
    ensures
        match (a, b) {
            (FactsOutcome::Extracted(held), FactsOutcome::Extracted(other)) => {
                held.deep_view() == other.deep_view()
            },
            (FactsOutcome::Cancelled, FactsOutcome::Cancelled) => true,
            (FactsOutcome::Failed(held), FactsOutcome::Failed(other)) => held@ == other@,
            _ => false,
        },
{
}

/// All of a key of a thread is seen: two keys of threads that look the same hold the
/// same.
pub proof fn law_keys_of_threads_are_seen_whole(a: ConversationKey, b: ConversationKey)
    requires
        a.deep_view() == b.deep_view(),
    ensures
        a.agent@ == b.agent@,
        a.conversation_id@ == b.conversation_id@,
{
}

/// All of a generation of a session is seen: two generations of a session that look the
/// same hold the same.
pub proof fn law_generations_of_a_session_are_seen_whole(
    a: ConversationGenerationState,
    b: ConversationGenerationState,
)
    requires
        a.deep_view() == b.deep_view(),
    ensures
        a.participants.deep_view() == b.participants.deep_view(),
        a.generation == b.generation,
{
}

/// All of a bridge is seen: two bridges that look the same hold the same.
pub proof fn law_bridges_are_seen_whole(a: LlmRuntimeBridge, b: LlmRuntimeBridge)
    requires
        a.deep_view() == b.deep_view(),
    ensures
        a.worlds.deep_view() == b.worlds.deep_view(),
        a.conversations.deep_view() == b.conversations.deep_view(),
        a.active_conversations.deep_view().dom() == b.active_conversations.deep_view().dom(),
        a.pending_conversation_requests.deep_view() == b.pending_conversation_requests.deep_view(),
        a.active_cancellations.deep_view() == b.active_cancellations.deep_view(),
        a.generated_conversations.deep_view() == b.generated_conversations.deep_view(),
        a.generated_conversation_cancellations.deep_view()
            == b.generated_conversation_cancellations.deep_view(),
        a.turn_generation_tool_calling == b.turn_generation_tool_calling,
        a.next_token == b.next_token,
{
}

/// All of an outcome of a refresh is seen: two outcomes of a refresh that look the same
/// are the same and hold the same.
pub proof fn law_outcomes_of_a_refresh_are_seen_whole(a: RefreshOutcome, b: RefreshOutcome)
    requires
        a.deep_view() == b.deep_view(),
    ensures
        match (a, b) {
            (RefreshOutcome::Refreshed(held), RefreshOutcome::Refreshed(other)) => {
                held.deep_view() == other.deep_view()
            },
            (RefreshOutcome::Cancelled, RefreshOutcome::Cancelled) => true,
            (RefreshOutcome::Failed(held), RefreshOutcome::Failed(other)) => held@ == other@,
            _ => false,
        },
{
}

/// All of an outcome of a turn is seen: two outcomes of a turn that look the same are the
/// same and hold the same.
pub proof fn law_outcomes_of_a_turn_are_seen_whole(a: TurnOutcome, b: TurnOutcome)
    requires
        a.deep_view() == b.deep_view(),
    ensures
        match (a, b) {
            (TurnOutcome::Generated(held), TurnOutcome::Generated(other)) => {
                held.deep_view() == other.deep_view()
            },
            (TurnOutcome::Cancelled, TurnOutcome::Cancelled) => true,
            (TurnOutcome::Failed(held), TurnOutcome::Failed(other)) => held@ == other@,
            _ => false,
        },
{
}

/// All of a task is seen: two tasks that look the same hold the same.
pub proof fn law_tasks_are_seen_whole(a: TurnGenerationTask, b: TurnGenerationTask)
    requires
        a.deep_view() == b.deep_view(),
    ensures
        a.agent@ == b.agent@,
        a.conversation_id.deep_view() == b.conversation_id.deep_view(),
        a.prompt@ == b.prompt@,
        a.response_mode == b.response_mode,
        a.facts.deep_view() == b.facts.deep_view(),
        a.tools.deep_view() == b.tools.deep_view(),
        a.world.deep_view() == b.world.deep_view(),
        a.conversation.deep_view() == b.conversation.deep_view(),
        a.session_participants.deep_view() == b.session_participants.deep_view(),
        a.speaker_labels.deep_view() == b.speaker_labels.deep_view(),
{
}

/// All of a call of a model is seen: two calls of a model that look the same hold the
/// same.
pub proof fn law_calls_of_a_model_are_seen_whole(a: ModelToolCall, b: ModelToolCall)
    requires
        a.deep_view() == b.deep_view(),
    ensures
        a.name@ == b.name@,
        a.arguments@ == b.arguments@,
{
}

/// All of a message of a model is seen: two messages of a model that look the same hold
/// the same.
pub proof fn law_messages_of_a_model_are_seen_whole(a: ModelMessage, b: ModelMessage)
    requires
        a.deep_view() == b.deep_view(),
    ensures
        a.content.deep_view() == b.content.deep_view(),
        a.tool_calls.deep_view() == b.tool_calls.deep_view(),
{
}

/// All of a turn in a reply is seen: two turns in a reply that look the same hold the
/// same.
pub proof fn law_turns_in_a_reply_are_seen_whole(a: TurnFields, b: TurnFields)
    requires
        a.deep_view() == b.deep_view(),
    ensures
        a.response.deep_view() == b.response.deep_view(),
        a.tool_calls.deep_view() == b.tool_calls.deep_view(),
{
}

/// All of an object of a reply is seen: two objects of a reply that look the same hold
/// the same.
pub proof fn law_objects_of_a_reply_are_seen_whole(a: ReplyCandidate, b: ReplyCandidate)
    requires
        a.deep_view() == b.deep_view(),
    ensures
        a.turn.deep_view() == b.turn.deep_view(),
        a.call.deep_view() == b.call.deep_view(),
{
}

/// All of a round is seen: two rounds that look the same hold the same.
pub proof fn law_rounds_are_seen_whole(
    a: ConversationTranscriptState,
    b: ConversationTranscriptState,
)
    requires
        a.deep_view() == b.deep_view(),
    ensures
        a.phase == b.phase,
        a.session_id.deep_view() == b.session_id.deep_view(),
        a.started_at == b.started_at,
        a.completed_at == b.completed_at,
{
}

/// All of a line of a queue is seen: two lines of a queue that look the same hold the
/// same.
pub proof fn law_lines_of_a_queue_are_seen_whole(a: ScheduledUtterance, b: ScheduledUtterance)
    requires
        a.deep_view() == b.deep_view(),
    ensures
        a.speaker@ == b.speaker@,
        a.text@ == b.text@,
        a.starts_after == b.starts_after,
        a.duration == b.duration,
{
}

/// All of a playback is seen: two playbacks that look the same hold the same.
pub proof fn law_playbacks_are_seen_whole(
    a: ConversationPlaybackState,
    b: ConversationPlaybackState,
)
    requires
        a.deep_view() == b.deep_view(),
    ensures
        a.session_id.deep_view() == b.session_id.deep_view(),
        a.participants.deep_view() == b.participants.deep_view(),
        a.started_at == b.started_at,
        a.queue.deep_view() == b.queue.deep_view(),
        a.pending_fact_store_requests == b.pending_fact_store_requests,
        a.pending_fact_extraction_requests == b.pending_fact_extraction_requests,
{
}

/// All of a value of an item is seen: two values of an item that look the same are the
/// same and hold the same.
pub proof fn law_values_of_an_item_are_seen_whole(a: ItemValue, b: ItemValue)
    requires
        a.deep_view() == b.deep_view(),
    ensures
        match (a, b) {
            (ItemValue::Bare, ItemValue::Bare) => true,
            (ItemValue::Text(held), ItemValue::Text(other)) => held@ == other@,
            (ItemValue::Other, ItemValue::Other) => true,
            _ => false,
        },
{
}

/// All of an item of an attribute is seen: two items of an attribute that look the same
/// hold the same.
pub proof fn law_items_of_an_attribute_are_seen_whole(a: AttributeItem, b: AttributeItem)
    requires
        a.deep_view() == b.deep_view(),
    ensures
        a.name@ == b.name@,
        a.value.deep_view() == b.value.deep_view(),
{
}

/// All of a list of attributes is seen: two lists of attributes that look the same hold
/// the same.
pub proof fn law_lists_of_attributes_are_seen_whole(a: ActionAttributes, b: ActionAttributes)
    requires
        a.deep_view() == b.deep_view(),
    ensures
        a.llm.deep_view() == b.llm.deep_view(),
        a.docs.deep_view() == b.docs.deep_view(),
{
}

/// All of a field of a variant is seen: two fields of a variant that look the same hold
/// the same.
pub proof fn law_fields_of_a_variant_are_seen_whole(a: ActionField, b: ActionField)
    requires
        a.deep_view() == b.deep_view(),
    ensures
        a.name@ == b.name@,
        a.attributes.deep_view() == b.attributes.deep_view(),
{
}

/// All of a set of fields is seen: two sets of fields that look the same are the same and
/// hold the same.
pub proof fn law_sets_of_fields_are_seen_whole(a: ActionFields, b: ActionFields)
    requires
        a.deep_view() == b.deep_view(),
    ensures
        match (a, b) {
            (ActionFields::Unit, ActionFields::Unit) => true,
            (ActionFields::Named(held), ActionFields::Named(other)) => {
                held.deep_view() == other.deep_view()
            },
            (ActionFields::Unnamed, ActionFields::Unnamed) => true,
            _ => false,
        },
{
}

/// All of a variant is seen: two variants that look the same hold the same.
pub proof fn law_variants_are_seen_whole(a: ActionVariant, b: ActionVariant)
    requires
        a.deep_view() == b.deep_view(),
    ensures
        a.name@ == b.name@,
        a.attributes.deep_view() == b.attributes.deep_view(),
        a.fields.deep_view() == b.fields.deep_view(),
{
}

/// All of an argument is seen: two arguments that look the same hold the same.
pub proof fn law_arguments_are_seen_whole(a: ArgumentPlan, b: ArgumentPlan)
    requires
        a.deep_view() == b.deep_view(),
    ensures
        a.field@ == b.field@,
        a.rename@ == b.rename@,
        a.description@ == b.description@,
{
}

/// All of a planned tool is seen: two planned tools that look the same hold the same.
pub proof fn law_planned_tools_are_seen_whole(a: ToolPlan, b: ToolPlan)
    requires
        a.deep_view() == b.deep_view(),
    ensures
        a.variant@ == b.variant@,
        a.tool_name@ == b.tool_name@,
        a.description@ == b.description@,
        a.tool_type@ == b.tool_type@,
        a.arguments_type@ == b.arguments_type@,
        a.arguments.deep_view() == b.arguments.deep_view(),
{
}

} // verus!
