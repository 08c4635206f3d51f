//! The tasks of a bridge beside the turns of agents: the generation of conversations,
//! and the extraction and storage of facts.

use crate::bridge::{
    looked_up, thread_or_empty, token_after, Bridge, ConversationGenerationState, ConversationKey,
    Generation, Key, LlmRuntimeBridge, Refresh, RefreshOutcome, TurnOutcome, TurnResult,
    FACT_STORE_CONVERSATION_ID,
};
use crate::calendar::{current_utc_days_since_epoch, day_at};
use crate::config::LlmTaskRoutingConfig;
use crate::events::{
    ExtractionEvent, GenerationCommand, GenerationEvent, LlmConversationGenerationCommand,
    LlmConversationGenerationEvent, LlmFactExtractionEvent, LlmFactStoreEvent, StoreEvent,
};
use crate::facts::{merge_conversation_facts_on, merged};
use crate::generation::{
    build_generated_conversation_prompt, dedupe_participants, deduped, generation_prompt,
    parse_generated_conversation_response, participant_of, participant_profile, planned,
    ConversationGenerationRequest, ConversationParticipantProfile, GenerationRequest, Participant,
    GENERATED_CONVERSATION_MAX_UTTERANCES,
};
use crate::history::{append_conversation_chat, with_entry};
use crate::text::trimmed;
use crate::turn::{error_report, report_error, TurnGenerationTask, TurnTask};
use crate::types::{
    empty_thread, outcome, Fact, GeneratedConversation, LlmConversationEntryKind,
    LlmConversationFact, LlmConversationState, LlmResponseMode, PlannedUtterance, Thread,
    Transcript, Utterance, WorldContext,
};
use vstd::prelude::*;

verus! {

/// The kinds of work that are routed to profiles.
#[derive(Debug, Clone, Copy, PartialEq, Eq, Structural)]
pub enum RoutedTaskKind {
    TurnGeneration,
    FactExtraction,
    FactPromptExtraction,
}

impl LlmTaskRoutingConfig {
    /// The profile that does a kind of work.
    pub fn profile_for(&self, task: RoutedTaskKind) -> (r: &str)
        ensures
            r@ == match task {
                RoutedTaskKind::TurnGeneration => self.deep_view().turn_generation_profile,
                RoutedTaskKind::FactExtraction
                | RoutedTaskKind::FactPromptExtraction => self.deep_view().fact_extraction_profile,
            },
    {
        match task {
            RoutedTaskKind::TurnGeneration => self.turn_generation_profile.as_str(),
            RoutedTaskKind::FactExtraction
            | RoutedTaskKind::FactPromptExtraction => self.fact_extraction_profile.as_str(),
        }
    }
}

/// The reason why work for a profile that is not there fails.
pub fn missing_profile(profile_id: &str) -> (r: String)
    ensures
        r@ == "missing runtime profile `"@ + profile_id@ + "`"@,
{
    let mut text = "missing runtime profile `".to_string();
    text.append(profile_id);
    text.append("`");
    text
}

/// What came of the generation of a conversation.
#[derive(Debug, PartialEq)]
pub struct ConversationGenerationResult {
    pub session_id: String,
    pub generation: u64,
    pub result: Result<Vec<PlannedUtterance>, String>,
}

/// A request to extract the facts of an utterance.
#[derive(Debug, PartialEq)]
pub struct FactExtractionRequest {
    pub request_id: String,
    pub session_id: String,
    pub utterance_index: usize,
    pub utterance: PlannedUtterance,
}

/// What a [`FactExtractionRequest`] holds.
#[verifier::ext_equal]
pub struct ExtractionRequest {
    pub request_id: Seq<char>,
    pub session_id: Seq<char>,
    pub utterance_index: usize,
    pub utterance: Utterance,
}

impl DeepView for FactExtractionRequest {
    type V = ExtractionRequest;

    open spec fn deep_view(&self) -> ExtractionRequest {
        ExtractionRequest {
            request_id: self.request_id@,
            session_id: self.session_id@,
            utterance_index: self.utterance_index,
            utterance: self.utterance.deep_view(),
        }
    }
}

impl Clone for FactExtractionRequest {
    fn clone(&self) -> (r: Self)
        ensures
            r.deep_view() == self.deep_view(),
    {
        FactExtractionRequest {
            request_id: self.request_id.clone(),
            session_id: self.session_id.clone(),
            utterance_index: self.utterance_index,
            utterance: self.utterance.clone(),
        }
    }
}

/// What came of a request to extract the facts of an utterance.
#[derive(Debug, PartialEq)]
pub struct FactExtractionResult {
    pub request_id: String,
    pub session_id: String,
    pub utterance_index: usize,
    pub utterance: PlannedUtterance,
    pub result: Result<Vec<LlmConversationFact>, String>,
}

/// A request to store the facts of a prompt for agents.
#[derive(Debug, PartialEq, Eq)]
pub struct FactStoreRequest {
    pub request_id: String,
    pub text: String,
    pub agents: Vec<String>,
}

/// What a [`FactStoreRequest`] holds.
#[verifier::ext_equal]
pub struct StoreRequest {
    pub request_id: Seq<char>,
    pub text: Seq<char>,
    pub agents: Seq<Seq<char>>,
}

impl DeepView for FactStoreRequest {
    type V = StoreRequest;

    open spec fn deep_view(&self) -> StoreRequest {
        StoreRequest {
            request_id: self.request_id@,
            text: self.text@,
            agents: self.agents.deep_view(),
        }
    }
}

impl Clone for FactStoreRequest {
    fn clone(&self) -> (r: Self)
        ensures
            r.deep_view() == self.deep_view(),
    {
        let agents = self.agents.clone();
        assert(agents.deep_view() =~= self.agents.deep_view());
        FactStoreRequest {
            request_id: self.request_id.clone(),
            text: self.text.clone(),
            agents,
        }
    }
}

/// What came of a request to store the facts of a prompt.
#[derive(Debug, PartialEq, Eq)]
pub struct FactStoreResult {
    pub request_id: String,
    pub agents: Vec<String>,
    pub result: Result<Vec<LlmConversationFact>, String>,
}

/// What came of the extraction of facts from a prompt.
#[derive(Debug, PartialEq, Eq)]
pub enum FactsOutcome {
    Extracted(Vec<LlmConversationFact>),
    Cancelled,
    /// It failed, for the given reason.
    Failed(String),
}

/// What a [`FactsOutcome`] holds.
pub enum Extracted {
    Extracted(Seq<Fact>),
    Cancelled,
    Failed(Seq<char>),
}

impl DeepView for FactsOutcome {
    type V = Extracted;

    open spec fn deep_view(&self) -> Extracted {
        match self {
            FactsOutcome::Extracted(facts) => Extracted::Extracted(facts.deep_view()),
            FactsOutcome::Cancelled => Extracted::Cancelled,
            FactsOutcome::Failed(reason) => Extracted::Failed(reason@),
        }
    }
}

/// What becomes of a command to generate a conversation.
#[derive(Debug, PartialEq)]
pub enum GenerationStep {
    /// It is refused, which the game is told.
    Refuse(LlmConversationGenerationEvent),
    /// It goes to a worker; the generation that runs under the token is cancelled.
    Start { request: ConversationGenerationRequest, cancel: Option<u64> },
    /// The generation that runs under the token is cancelled.
    Cancel(Option<u64>),
}

/// The number of the next generation of a session.
pub open spec fn next_generation(bridge: Bridge, session_id: Seq<char>) -> u64 {
    match looked_up(bridge.generated, session_id) {
        Some(latest) => token_after(latest.generation),
        None => 1,
    }
}

/// The participants of a conversation as their worlds describe them.
pub open spec fn participants_of(
    worlds: Map<Seq<char>, WorldContext>,
    ids: Seq<Seq<char>>,
) -> Seq<Participant> {
    Seq::new(ids.len(), |i: int| participant_of(ids[i], looked_up(worlds, ids[i])))
}

/// The request to generate a conversation.
pub open spec fn generation_request(
    bridge: Bridge,
    session_id: Seq<char>,
    participants: Seq<Seq<char>>,
    initial_message: Seq<char>,
    facts: Seq<Seq<char>>,
) -> GenerationRequest {
    GenerationRequest {
        session_id,
        generation: next_generation(bridge, session_id),
        participants: deduped(participants),
        initial_message,
        facts,
        participant_profiles: participants_of(bridge.worlds, deduped(participants)),
        tool_calling: bridge.tool_calling,
    }
}

/// The bridge after the generation of a conversation is asked for: it is the latest of its
/// session, and has a token of its own.
pub open spec fn after_generation_start(
    bridge: Bridge,
    session_id: Seq<char>,
    participants: Seq<Seq<char>>,
) -> Bridge {
    Bridge {
        generated: bridge.generated.insert(
            session_id,
            Generation {
                participants: deduped(participants),
                generation: next_generation(bridge, session_id),
            },
        ),
        generated_cancellations: bridge.generated_cancellations.insert(
            session_id,
            bridge.next_token,
        ),
        next_token: token_after(bridge.next_token),
        ..bridge
    }
}

/// The task of the generation of a conversation.
pub open spec fn generation_task(request: GenerationRequest) -> TurnTask {
    TurnTask {
        agent: if request.participants.len() > 0 {
            request.participants[0]
        } else {
            "conversation_generator"@
        },
        conversation_id: Some(request.session_id),
        prompt: generation_prompt(request),
        response_mode: LlmResponseMode::StructuredJson,
        facts: seq![],
        tools: seq![],
        world: None,
        conversation: None,
        session_participants: None,
        speaker_labels: None,
    }
}

/// The bridge after a worker takes up the generation of a conversation: it has a token.
pub open spec fn after_generation_taken_up(bridge: Bridge, session_id: Seq<char>) -> Bridge {
    if bridge.generated_cancellations.dom().contains(session_id) {
        bridge
    } else {
        Bridge {
            generated_cancellations: bridge.generated_cancellations.insert(
                session_id,
                bridge.next_token,
            ),
            next_token: token_after(bridge.next_token),
            ..bridge
        }
    }
}

/// Whether a generation is the latest of its session.
pub open spec fn is_latest(bridge: Bridge, session_id: Seq<char>, generation: u64) -> bool {
    looked_up(bridge.generated, session_id) matches Some(latest) && latest.generation == generation
}

/// What the game is told of a generation that is done.
pub open spec fn generation_event(
    bridge: Bridge,
    session_id: Seq<char>,
    result: Result<Seq<Utterance>, Seq<char>>,
) -> GenerationEvent {
    match result {
        Ok(utterances) => GenerationEvent::ConversationGenerated {
            conversation: Transcript {
                session_id,
                participants: bridge.generated[session_id].participants,
                utterances,
            },
        },
        Err(reason) => GenerationEvent::ConversationGenerationFailed { session_id, reason },
    }
}

/// The bridge after a generation is done.
pub open spec fn after_generation(bridge: Bridge, session_id: Seq<char>, generation: u64) ->
    Bridge {
    if is_latest(bridge, session_id, generation) {
        Bridge {
            generated_cancellations: bridge.generated_cancellations.remove(session_id),
            ..bridge
        }
    } else {
        bridge
    }
}

impl LlmRuntimeBridge {
    /// The token under which the generation of a session can be cancelled, if it runs.
    pub fn cancel_generated_conversation(&self, session_id: &String) -> (r: Option<u64>)
        ensures
            r == looked_up(self.deep_view().generated_cancellations, session_id@),
    {
        match self.generated_conversation_cancellations.get(session_id) {
            Some(token) => Some(*token),
            None => None,
        }
    }

    /// Starts the generation of a conversation, in place of one that runs for the same
    /// session. It takes at least one participant.
    pub fn generate_conversation(
        &mut self,
        session_id: String,
        participants: Vec<String>,
        initial_message: String,
        facts: Vec<String>,
    ) -> (step: GenerationStep)
        ensures
            match step {
                GenerationStep::Refuse(event) => {
                    &&& participants@.len() == 0
                    &&& event.deep_view() == (GenerationEvent::ConversationGenerationFailed {
                        session_id: session_id@,
                        reason: "conversation requires at least one participant"@,
                    })
                    &&& final(self).deep_view() == old(self).deep_view()
                },
                GenerationStep::Start { request, cancel } => {
                    &&& participants@.len() > 0
                    &&& request.deep_view() == generation_request(
                        old(self).deep_view(),
                        session_id@,
                        participants.deep_view(),
                        initial_message@,
                        facts.deep_view(),
                    )
                    &&& cancel == looked_up(
                        old(self).deep_view().generated_cancellations,
                        session_id@,
                    )
                    &&& final(self).deep_view() == after_generation_start(
                        old(self).deep_view(),
                        session_id@,
                        participants.deep_view(),
                    )
                },
                GenerationStep::Cancel(_) => false,
            },
    {
        let ghost before = self.deep_view();
        let ghost asked = participants.deep_view();
        proof {
            crate::generation::law_participants_are_kept_once(asked);
        }
        assert(asked.len() == participants.len());
        let ids = dedupe_participants(participants);
        assert(ids.deep_view().len() == ids.len());
        if ids.len() == 0 {
            return GenerationStep::Refuse(
                LlmConversationGenerationEvent::ConversationGenerationFailed {
                    session_id,
                    reason: "conversation requires at least one participant".to_string(),
                },
            );
        }
        let cancel = self.cancel_generated_conversation(&session_id);
        let token: u64 = self.take_token();
        self.generated_conversation_cancellations.insert(session_id.clone(), token);
        let generation: u64 = match self.generated_conversations.get(&session_id) {
            Some(latest) => latest.generation.wrapping_add(1),
            None => 1,
        };
        let kept = ids.clone();
        assert(kept.deep_view() =~= ids.deep_view());
        self.generated_conversations.insert(
            session_id.clone(),
            ConversationGenerationState { participants: kept, generation },
        );
        let participant_profiles = self.describe(&ids);
        let request = ConversationGenerationRequest {
            session_id,
            generation,
            participants: ids,
            initial_message,
            facts,
            participant_profiles,
            tool_calling: self.turn_generation_tool_calling,
        };
        assert(self.deep_view() =~= after_generation_start(before, session_id@, asked));
        GenerationStep::Start { request, cancel }
    }

    fn describe(&self, ids: &Vec<String>) -> (r: Vec<ConversationParticipantProfile>)
        ensures
            r.deep_view() == participants_of(self.deep_view().worlds, ids.deep_view()),
    {
        let ghost worlds = self.deep_view().worlds;
        let ghost names = ids.deep_view();
        let mut profiles: Vec<ConversationParticipantProfile> = Vec::new();
        let mut i: usize = 0;
        while i < ids.len()
            invariant
                i <= ids.len(),
                worlds == self.deep_view().worlds,
                names == ids.deep_view(),
                profiles.deep_view() == participants_of(worlds, names).take(i as int),
            decreases ids.len() - i,
        {
            let world = self.worlds.get(&ids[i]);
            let profile = participant_profile(ids[i].as_str(), world);
            let ghost before = profiles.deep_view();
            profiles.push(profile);
            assert(profiles.deep_view() =~= before.push(profile.deep_view()));
            assert(names[i as int] == ids@[i as int]@);
            assert(world.deep_view() == looked_up(worlds, names[i as int]));
            assert(profiles.deep_view() =~= participants_of(worlds, names).take(i + 1));
            i = i + 1;
        }
        assert(profiles.deep_view() =~= participants_of(worlds, names));
        profiles
    }

    /// Carries out a command on the generation of conversations.
    pub fn handle_generation_command(&mut self, command: LlmConversationGenerationCommand) -> (step:
        GenerationStep)
        ensures
            match command.deep_view() {
                GenerationCommand::GenerateConversation {
                    session_id,
                    participants,
                    initial_message,
                    facts,
                } => match step {
                    GenerationStep::Refuse(event) => {
                        &&& participants.len() == 0
                        &&& event.deep_view() == (GenerationEvent::ConversationGenerationFailed {
                            session_id,
                            reason: "conversation requires at least one participant"@,
                        })
                        &&& final(self).deep_view() == old(self).deep_view()
                    },
                    GenerationStep::Start { request, cancel } => {
                        &&& participants.len() > 0
                        &&& request.deep_view() == generation_request(
                            old(self).deep_view(),
                            session_id,
                            participants,
                            initial_message,
                            facts,
                        )
                        &&& cancel == looked_up(
                            old(self).deep_view().generated_cancellations,
                            session_id,
                        )
                        &&& final(self).deep_view() == after_generation_start(
                            old(self).deep_view(),
                            session_id,
                            participants,
                        )
                    },
                    GenerationStep::Cancel(_) => false,
                },
                GenerationCommand::CancelConversation { session_id } => {
                    &&& final(self).deep_view() == old(self).deep_view()
                    &&& step matches GenerationStep::Cancel(cancel) && cancel == looked_up(
                        old(self).deep_view().generated_cancellations,
                        session_id,
                    )
                },
            },
    {
        match command {
            LlmConversationGenerationCommand::GenerateConversation {
                session_id,
                participants,
                initial_message,
                facts,
            } => {
                assert(participants.deep_view().len() == participants@.len());
                self.generate_conversation(session_id, participants, initial_message, facts)
            },
            LlmConversationGenerationCommand::CancelConversation { session_id } => {
                GenerationStep::Cancel(self.cancel_generated_conversation(&session_id))
            },
        }
    }

    /// Takes up the generation of a conversation: gives the task, and the token under which
    /// it can be cancelled.
    pub fn start_generated_request(&mut self, request: &ConversationGenerationRequest) -> (r: (
        TurnGenerationTask,
        u64,
    ))
        ensures
            final(self).deep_view() == after_generation_taken_up(
                old(self).deep_view(),
                request.deep_view().session_id,
            ),
            r.0.deep_view() == generation_task(request.deep_view()),
            r.1 == final(self).deep_view().generated_cancellations[request.deep_view().session_id],
    {
        let token: u64 = match self.cancel_generated_conversation(&request.session_id) {
            Some(token) => token,
            None => {
                let token: u64 = self.take_token();
                self.generated_conversation_cancellations.insert(
                    request.session_id.clone(),
                    token,
                );
                token
            },
        };
        assert(request.deep_view().participants.len() == request.participants.len());
        let agent = if request.participants.len() > 0 {
            assert(request.deep_view().participants[0] == request.participants@[0]@);
            request.participants[0].clone()
        } else {
            "conversation_generator".to_string()
        };
        let task = TurnGenerationTask {
            agent,
            conversation_id: Some(request.session_id.clone()),
            prompt: build_generated_conversation_prompt(request),
            response_mode: LlmResponseMode::StructuredJson,
            facts: Vec::new(),
            tools: Vec::new(),
            world: None,
            conversation: None,
            session_participants: None,
            speaker_labels: None,
        };
        assert(task.deep_view().facts =~= seq![]);
        assert(task.deep_view().tools =~= seq![]);
        (task, token)
    }

    /// Takes in a generation that is done, and gives what the game is told of it. One that
    /// is not the latest of its session is dropped.
    pub fn handle_generated_conversation(&mut self, turn: ConversationGenerationResult) -> (event:
        Option<LlmConversationGenerationEvent>)
        ensures
            final(self).deep_view() == after_generation(
                old(self).deep_view(),
                turn.session_id@,
                turn.generation,
            ),
            event is Some <==> is_latest(old(self).deep_view(), turn.session_id@, turn.generation),
            event matches Some(event) ==> event.deep_view() == generation_event(
                old(self).deep_view(),
                turn.session_id@,
                outcome(turn.result),
            ),
    {
        let state = match self.generated_conversations.get(&turn.session_id) {
            Some(state) => state.clone(),
            None => {
                return None;
            },
        };
        if state.generation != turn.generation {
            return None;
        }
        self.generated_conversation_cancellations.remove(&turn.session_id);
        match turn.result {
            Ok(utterances) => Some(
                LlmConversationGenerationEvent::ConversationGenerated {
                    conversation: GeneratedConversation {
                        session_id: turn.session_id,
                        participants: state.participants,
                        utterances,
                    },
                },
            ),
            Err(reason) => Some(
                LlmConversationGenerationEvent::ConversationGenerationFailed {
                    session_id: turn.session_id,
                    reason,
                },
            ),
        }
    }
}

/// What comes of the generation of a conversation, given how the reply was read where
/// there is one; nothing of one that was cancelled.
pub open spec fn generation_result(
    request: GenerationRequest,
    result: TurnResult,
    read: Result<Seq<Utterance>, Seq<char>>,
) -> Option<Result<Seq<Utterance>, Seq<char>>> {
    match result {
        TurnResult::Generated(turn) => Some(
            planned(read, request.participants, GENERATED_CONVERSATION_MAX_UTTERANCES as nat),
        ),
        TurnResult::Cancelled => None,
        TurnResult::Failed(reason) => Some(Err(error_report(reason))),
    }
}

/// Makes the result of the generation of a conversation. A parser reads the reply.
pub fn finish_generated_request<F: Fn(&str) -> Result<Vec<PlannedUtterance>, String>>(
    request: &ConversationGenerationRequest,
    result: TurnOutcome,
    parser: F,
) -> (r: Option<ConversationGenerationResult>)
    requires
        forall|text: &str| call_requires(parser, (text,)),
    ensures
        r matches Some(done) ==> done.session_id@ == request.deep_view().session_id
            && done.generation == request.generation,
        match result.deep_view() {
            TurnResult::Generated(turn) => r matches Some(done) && exists|
                text: &str,
                read: Result<Vec<PlannedUtterance>, String>,
            | #[trigger]
                call_ensures(parser, (text,), read) && text@ == trimmed(turn.response) && Some(
                    outcome(done.result),
                ) == generation_result(request.deep_view(), result.deep_view(), outcome(read)),
            TurnResult::Cancelled => r is None,
            TurnResult::Failed(reason) => r matches Some(done) && outcome(done.result) == Err::<
                Seq<Utterance>,
                Seq<char>,
            >(error_report(reason)),
        },
{
    let result = match result {
        TurnOutcome::Generated(turn) => parse_generated_conversation_response(
            turn.response.as_str(),
            request.participants.as_slice(),
            GENERATED_CONVERSATION_MAX_UTTERANCES,
            parser,
        ),
        TurnOutcome::Cancelled => {
            return None;
        },
        TurnOutcome::Failed(reason) => Err(report_error(reason.as_str())),
    };
    Some(
        ConversationGenerationResult {
            session_id: request.session_id.clone(),
            generation: request.generation,
            result,
        },
    )
}

/// The thread from which the facts of an utterance are extracted.
pub open spec fn utterance_thread(utterance: Utterance) -> Thread {
    with_entry(
        empty_thread(),
        utterance.speaker,
        utterance.text,
        LlmConversationEntryKind::Chat,
        true,
    )
}

/// Makes the thread from which the facts of an utterance are extracted.
pub fn fact_extraction_thread(request: &FactExtractionRequest) -> (r: LlmConversationState)
    ensures
        r.deep_view() == utterance_thread(request.deep_view().utterance),
{
    let mut thread = LlmConversationState::default();
    append_conversation_chat(
        &mut thread,
        request.utterance.speaker.clone(),
        request.utterance.text.clone(),
        true,
    );
    thread
}

/// The facts of an utterance, or the reason why there are none.
pub open spec fn extraction_result(refresh: Refresh) -> Result<Seq<Fact>, Seq<char>> {
    match refresh {
        Refresh::Refreshed(thread) => Ok(thread.facts),
        Refresh::Cancelled => Err("fact extraction cancelled"@),
        Refresh::Failed(reason) => Err(error_report(reason)),
    }
}

/// Makes the result of a request to extract the facts of an utterance.
pub fn finish_fact_extraction(request: FactExtractionRequest, refresh: RefreshOutcome) -> (r:
    FactExtractionResult)
    ensures
        r.request_id == request.request_id,
        r.session_id == request.session_id,
        r.utterance_index == request.utterance_index,
        r.utterance == request.utterance,
        outcome(r.result) == extraction_result(refresh.deep_view()),
{
    let result = match refresh {
        RefreshOutcome::Refreshed(thread) => Ok(thread.facts),
        RefreshOutcome::Cancelled => Err("fact extraction cancelled".to_string()),
        RefreshOutcome::Failed(reason) => Err(report_error(reason.as_str())),
    };
    FactExtractionResult {
        request_id: request.request_id,
        session_id: request.session_id,
        utterance_index: request.utterance_index,
        utterance: request.utterance,
        result,
    }
}

/// Makes what the game is told of the facts of an utterance.
pub fn handle_extracted_facts(turn: FactExtractionResult) -> (event: LlmFactExtractionEvent)
    ensures
        event.deep_view() == match outcome(turn.result) {
            Ok(facts) => ExtractionEvent::FactsExtractedFromUtterance {
                request_id: turn.request_id@,
                session_id: turn.session_id@,
                utterance_index: turn.utterance_index,
                utterance: turn.utterance.deep_view(),
                facts,
            },
            Err(reason) => ExtractionEvent::FactExtractionFailedForUtterance {
                request_id: turn.request_id@,
                session_id: turn.session_id@,
                utterance_index: turn.utterance_index,
                utterance: turn.utterance.deep_view(),
                reason,
            },
        },
{
    match turn.result {
        Ok(facts) => LlmFactExtractionEvent::FactsExtractedFromUtterance {
            request_id: turn.request_id,
            session_id: turn.session_id,
            utterance_index: turn.utterance_index,
            utterance: turn.utterance,
            facts,
        },
        Err(reason) => LlmFactExtractionEvent::FactExtractionFailedForUtterance {
            request_id: turn.request_id,
            session_id: turn.session_id,
            utterance_index: turn.utterance_index,
            utterance: turn.utterance,
            reason,
        },
    }
}

/// Takes up a request to store facts: each agent once, and at least one.
pub fn start_fact_store(request: FactStoreRequest) -> (r: Result<
    FactStoreRequest,
    FactStoreResult,
>)
    ensures
        match r {
            Ok(taken) => request.agents@.len() > 0 && taken.deep_view() == (StoreRequest {
                agents: deduped(request.deep_view().agents),
                ..request.deep_view()
            }),
            Err(refused) => {
                &&& request.agents@.len() == 0
                &&& refused.request_id@ == request.deep_view().request_id
                &&& refused.agents@.len() == 0
                &&& outcome(refused.result) == Err::<Seq<Fact>, Seq<char>>(
                    "at least one agent is required"@,
                )
            },
        },
{
    proof {
        crate::generation::law_participants_are_kept_once(request.agents.deep_view());
    }
    assert(request.agents.deep_view().len() == request.agents.len());
    let agents = dedupe_participants(request.agents);
    assert(agents.deep_view().len() == agents.len());
    if agents.len() == 0 {
        return Err(
            FactStoreResult {
                request_id: request.request_id,
                agents,
                result: Err("at least one agent is required".to_string()),
            },
        );
    }
    Ok(FactStoreRequest { request_id: request.request_id, text: request.text, agents })
}

/// The thread in which the facts that are stored for an agent are kept.
pub open spec fn store_key(agent: Seq<char>) -> Key {
    Key { agent, conversation_id: FACT_STORE_CONVERSATION_ID@ }
}

/// The threads with facts merged in, on a day, where the facts of each of the agents are
/// kept.
pub open spec fn stored_for(
    conversations: Map<Key, Thread>,
    agents: Seq<Seq<char>>,
    facts: Seq<Fact>,
    today: Option<i64>,
) -> Map<Key, Thread>
    decreases agents.len(),
{
    if agents.len() == 0 {
        conversations
    } else {
        let before = stored_for(conversations, agents.drop_last(), facts, today);
        let key = store_key(agents.last());
        let thread = thread_or_empty(before, key);
        before.insert(key, Thread { facts: merged(thread.facts, facts, today), ..thread })
    }
}

/// The bridge after facts were extracted from a prompt.
pub open spec fn after_fact_store(
    bridge: Bridge,
    agents: Seq<Seq<char>>,
    extracted: Extracted,
    today: Option<i64>,
) -> Bridge {
    match extracted {
        Extracted::Extracted(facts) => Bridge {
            conversations: stored_for(bridge.conversations, agents, facts, today),
            ..bridge
        },
        _ => bridge,
    }
}

/// The facts that were stored, or the reason why none were.
pub open spec fn store_result(extracted: Extracted) -> Result<Seq<Fact>, Seq<char>> {
    match extracted {
        Extracted::Extracted(facts) => Ok(facts),
        Extracted::Cancelled => Err("fact storage cancelled"@),
        Extracted::Failed(reason) => Err(error_report(reason)),
    }
}

impl LlmRuntimeBridge {
    /// Stores the facts that were extracted from a prompt for each of the agents, on a day.
    pub fn finish_fact_store_on(
        &mut self,
        request: FactStoreRequest,
        extracted: FactsOutcome,
        today: Option<i64>,
    ) -> (r: FactStoreResult)
        ensures
            final(self).deep_view() == after_fact_store(
                old(self).deep_view(),
                request.deep_view().agents,
                extracted.deep_view(),
                today,
            ),
            r.request_id == request.request_id,
            r.agents == request.agents,
            outcome(r.result) == store_result(extracted.deep_view()),
    {
        let result = match extracted {
            FactsOutcome::Extracted(facts) => {
                self.store_facts(&request.agents, &facts, today);
                Ok(facts)
            },
            FactsOutcome::Cancelled => Err("fact storage cancelled".to_string()),
            FactsOutcome::Failed(reason) => Err(report_error(reason.as_str())),
        };
        FactStoreResult { request_id: request.request_id, agents: request.agents, result }
    }

    fn store_facts(
        &mut self,
        agents: &Vec<String>,
        facts: &Vec<LlmConversationFact>,
        today: Option<i64>,
    )
        ensures
            final(self).deep_view() == (Bridge {
                conversations: stored_for(
                    old(self).deep_view().conversations,
                    agents.deep_view(),
                    facts.deep_view(),
                    today,
                ),
                ..old(self).deep_view()
            }),
    {
        let ghost start = self.deep_view().conversations;
        let ghost all = agents.deep_view();
        let mut i: usize = 0;
        assert(all.take(0) =~= seq![]);
        while i < agents.len()
            invariant
                i <= agents.len(),
                start == old(self).deep_view().conversations,
                all == agents.deep_view(),
                self.deep_view() == (Bridge {
                    conversations: stored_for(start, all.take(i as int), facts.deep_view(), today),
                    ..old(self).deep_view()
                }),
            decreases agents.len() - i,
        {
            assert(all.take(i + 1).drop_last() =~= all.take(i as int));
            assert(all.take(i + 1).last() == agents@[i as int]@);
            let ghost before = self.deep_view().conversations;
            let key = ConversationKey {
                agent: agents[i].clone(),
                conversation_id: FACT_STORE_CONVERSATION_ID.to_string(),
            };
            let mut thread = match self.conversations.remove(&key) {
                Some(thread) => thread,
                None => LlmConversationState::default(),
            };
            let incoming = facts.clone();
            assert(incoming.deep_view() =~= facts.deep_view());
            merge_conversation_facts_on(&mut thread.facts, incoming, today);
            self.conversations.insert(key, thread);
            assert(self.deep_view().conversations =~= before.insert(
                key.deep_view(),
                thread.deep_view(),
            ));
            i = i + 1;
        }
        assert(all.take(all.len() as int) =~= all);
    }

    /// Stores the facts that were extracted from a prompt for each of the agents.
    pub fn finish_fact_store(&mut self, request: FactStoreRequest, extracted: FactsOutcome) -> (r:
        FactStoreResult)
        ensures
            exists|now: std::time::SystemTime| #[trigger]
                call_ensures(std::time::SystemTime::now, (), now) && final(self).deep_view()
                    == after_fact_store(
                    old(self).deep_view(),
                    request.deep_view().agents,
                    extracted.deep_view(),
                    day_at(now),
                ),
            r.request_id == request.request_id,
            r.agents == request.agents,
            outcome(r.result) == store_result(extracted.deep_view()),
    {
        let today = current_utc_days_since_epoch();
        self.finish_fact_store_on(request, extracted, today)
    }
}

/// Makes what the game is told of facts that were to be stored.
pub fn handle_stored_facts(turn: FactStoreResult) -> (event: LlmFactStoreEvent)
    ensures
        event.deep_view() == match outcome(turn.result) {
            Ok(facts) => StoreEvent::FactsStored {
                request_id: turn.request_id@,
                agents: turn.agents.deep_view(),
                facts,
            },
            Err(reason) => StoreEvent::FactStorageFailed {
                request_id: turn.request_id@,
                agents: turn.agents.deep_view(),
                reason,
            },
        },
{
    match turn.result {
        Ok(facts) => LlmFactStoreEvent::FactsStored {
            request_id: turn.request_id,
            agents: turn.agents,
            facts,
        },
        Err(reason) => LlmFactStoreEvent::FactStorageFailed {
            request_id: turn.request_id,
            agents: turn.agents,
            reason,
        },
    }
}

} // verus!
