//! The playback of a generated conversation, and the facts that are drawn from it.
//! Points in time are counted in nanoseconds on the caller's clock.

use crate::calendar::{current_utc_days_since_epoch, day_at};
use crate::events::{
    ExtractionCommand, GenerationEvent, LlmConversationGenerationEvent, LlmFactExtractionCommand,
    LlmFactExtractionEvent, LlmFactStoreCommand, LlmFactStoreEvent, StoreCommand, StoreEvent,
};
use crate::facts::{merge_conversation_facts_on, merged};
use crate::pace::{estimate_utterance_duration, law_durations_are_bounded, utterance_nanos};
use crate::table::Table;
use crate::text::{decimal, decimal_text, trim, trimmed};
use crate::types::{
    Fact, GeneratedConversation, LlmConversationFact, PlannedUtterance, Transcript, Utterance,
};
use std::collections::VecDeque;
use vstd::prelude::*;

verus! {

/// Playback phase for a generated transcript.
#[derive(Debug, Clone, Copy, PartialEq, Eq, Structural)]
pub enum ConversationTranscriptPhase {
    WaitingForConversation,
    ReplayingTranscript,
    CollectingFacts,
    Complete,
}

/// Current state of a generated conversation round.
#[derive(Debug, PartialEq, Eq)]
pub struct ConversationTranscriptState {
    pub phase: ConversationTranscriptPhase,
    pub session_id: Option<String>,
    pub started_at: Option<u128>,
    pub completed_at: Option<u128>,
}

/// What a [`ConversationTranscriptState`] holds.
#[verifier::ext_equal]
pub struct TranscriptState {
    pub phase: ConversationTranscriptPhase,
    pub session_id: Option<Seq<char>>,
    pub started_at: Option<u128>,
    pub completed_at: Option<u128>,
}

impl DeepView for ConversationTranscriptState {
    type V = TranscriptState;

    open spec fn deep_view(&self) -> TranscriptState {
        TranscriptState {
            phase: self.phase,
            session_id: self.session_id.deep_view(),
            started_at: self.started_at,
            completed_at: self.completed_at,
        }
    }
}

impl Clone for ConversationTranscriptState {
    fn clone(&self) -> (r: Self)
        ensures
            r.deep_view() == self.deep_view(),
    {
        ConversationTranscriptState {
            phase: self.phase,
            session_id: self.session_id.clone(),
            started_at: self.started_at,
            completed_at: self.completed_at,
        }
    }
}

impl Default for ConversationTranscriptState {
    fn default() -> (r: Self)
        ensures
            r.deep_view() == (TranscriptState {
                phase: ConversationTranscriptPhase::WaitingForConversation,
                session_id: None,
                started_at: None,
                completed_at: None,
            }),
    {
        ConversationTranscriptState {
            phase: ConversationTranscriptPhase::WaitingForConversation,
            session_id: None,
            started_at: None,
            completed_at: None,
        }
    }
}

/// A scheduled transcript utterance. Its times are in nanoseconds.
#[derive(Debug, PartialEq, Eq)]
pub struct ScheduledUtterance {
    pub speaker: String,
    pub text: String,
    pub starts_after: u128,
    pub duration: u64,
}

/// What a [`ScheduledUtterance`] holds.
#[verifier::ext_equal]
pub struct Scheduled {
    pub speaker: Seq<char>,
    pub text: Seq<char>,
    pub starts_after: u128,
    pub duration: u64,
}

impl DeepView for ScheduledUtterance {
    type V = Scheduled;

    open spec fn deep_view(&self) -> Scheduled {
        Scheduled {
            speaker: self.speaker@,
            text: self.text@,
            starts_after: self.starts_after,
            duration: self.duration,
        }
    }
}

impl Clone for ScheduledUtterance {
    fn clone(&self) -> (r: Self)
        ensures
            r.deep_view() == self.deep_view(),
    {
        ScheduledUtterance {
            speaker: self.speaker.clone(),
            text: self.text.clone(),
            starts_after: self.starts_after,
            duration: self.duration,
        }
    }
}

/// Playback queue for a generated transcript.
#[derive(Debug, PartialEq, Eq)]
pub struct ConversationPlaybackState {
    pub session_id: Option<String>,
    pub participants: Vec<String>,
    pub started_at: Option<u128>,
    pub queue: VecDeque<ScheduledUtterance>,
    pub pending_fact_store_requests: usize,
    pub pending_fact_extraction_requests: usize,
}

/// What a [`ConversationPlaybackState`] holds.
#[verifier::ext_equal]
pub struct PlaybackState {
    pub session_id: Option<Seq<char>>,
    pub participants: Seq<Seq<char>>,
    pub started_at: Option<u128>,
    pub queue: Seq<Scheduled>,
    pub pending_fact_store_requests: usize,
    pub pending_fact_extraction_requests: usize,
}

impl DeepView for ConversationPlaybackState {
    type V = PlaybackState;

    open spec fn deep_view(&self) -> PlaybackState {
        PlaybackState {
            session_id: self.session_id.deep_view(),
            participants: self.participants.deep_view(),
            started_at: self.started_at,
            queue: self.queue.deep_view(),
            pending_fact_store_requests: self.pending_fact_store_requests,
            pending_fact_extraction_requests: self.pending_fact_extraction_requests,
        }
    }
}

impl Default for ConversationPlaybackState {
    fn default() -> (r: Self)
        ensures
            r.deep_view() == (PlaybackState {
                session_id: None,
                participants: seq![],
                started_at: None,
                queue: seq![],
                pending_fact_store_requests: 0,
                pending_fact_extraction_requests: 0,
            }),
    {
        let r = ConversationPlaybackState {
            session_id: None,
            participants: Vec::new(),
            started_at: None,
            queue: VecDeque::new(),
            pending_fact_store_requests: 0,
            pending_fact_extraction_requests: 0,
        };
        assert(r.deep_view().participants =~= seq![]);
        assert(r.deep_view().queue =~= seq![]);
        r
    }
}

/// Cached facts attributed to each participant.
#[derive(Debug, PartialEq, Eq)]
pub struct ParticipantFactLedger {
    pub facts_by_agent: Table<String, Vec<LlmConversationFact>>,
}

/// Whether an utterance is spoken.
pub open spec fn is_spoken(utterance: Utterance) -> bool {
    trimmed(utterance.text).len() > 0
}

/// The time at which the last utterance of a queue ends.
pub open spec fn queue_end(queue: Seq<Scheduled>) -> int {
    if queue.len() == 0 {
        0
    } else {
        queue.last().starts_after + queue.last().duration
    }
}

/// The spoken utterances one after the other, each as long as it takes to say.
pub open spec fn playback_queue(utterances: Seq<Utterance>) -> Seq<Scheduled>
    decreases utterances.len(),
{
    if utterances.len() == 0 {
        seq![]
    } else {
        let before = playback_queue(utterances.drop_last());
        let next = utterances.last();
        if is_spoken(next) {
            before.push(
                Scheduled {
                    speaker: next.speaker,
                    text: next.text,
                    starts_after: queue_end(before) as u128,
                    duration: utterance_nanos(next.text) as u64,
                },
            )
        } else {
            before
        }
    }
}

/// Schedules the spoken utterances of a generated conversation.
pub fn build_playback_queue(conversation: &GeneratedConversation) -> (r: VecDeque<
    ScheduledUtterance,
>)
    ensures
        r.deep_view() == playback_queue(conversation.deep_view().utterances),
{
    let ghost all = conversation.utterances.deep_view();
    let mut starts_after: u128 = 0;
    let mut queue: VecDeque<ScheduledUtterance> = VecDeque::new();
    let mut i: usize = 0;
    assert(all.take(0) =~= seq![]);
    assert(queue.deep_view() =~= seq![]);
    while i < conversation.utterances.len()
        invariant
            i <= conversation.utterances.len(),
            all == conversation.utterances.deep_view(),
            queue.deep_view() == playback_queue(all.take(i as int)),
            starts_after == queue_end(queue.deep_view()),
            starts_after <= i * 6_000_000_000,
        decreases conversation.utterances.len() - i,
    {
        let utterance = &conversation.utterances[i];
        assert(all.take(i + 1).drop_last() =~= all.take(i as int));
        assert(all.take(i + 1).last() == utterance.deep_view());
        if trim(utterance.text.as_str()).unicode_len() > 0 {
            proof {
                law_durations_are_bounded(utterance.text@);
            }
            let duration: u64 = estimate_utterance_duration(utterance.text.as_str());
            let ghost before = queue.deep_view();
            let scheduled = ScheduledUtterance {
                speaker: utterance.speaker.clone(),
                text: utterance.text.clone(),
                starts_after,
                duration,
            };
            queue.push_back(scheduled);
            assert(queue.deep_view() =~= before.push(scheduled.deep_view()));
            assert(i * 6_000_000_000 <= 0xffff_ffff_ffff_ffff * 6_000_000_000) by (nonlinear_arith)
                requires
                    i <= 0xffff_ffff_ffff_ffff,
            ;
            starts_after = starts_after + duration as u128;
        }
        i = i + 1;
    }
    assert(all.take(all.len() as int) =~= all);
    queue
}

/// Whether the utterances of a queue follow each other: the first starts at once, and
/// each other when the one before it ends.
pub open spec fn follows_on(queue: Seq<Scheduled>) -> bool {
    &&& queue.len() > 0 ==> queue[0].starts_after == 0
    &&& forall|i: int, j: int|
        #![trigger queue[i], queue[j]]
        0 <= i && j == i + 1 && j < queue.len() ==> queue[j].starts_after
            == queue[i].starts_after + queue[i].duration
}

proof fn lemma_playback_queue(utterances: Seq<Utterance>)
    requires
        utterances.len() <= u64::MAX,
    ensures
        follows_on(playback_queue(utterances)),
        playback_queue(utterances).len() <= utterances.len(),
        0 <= queue_end(playback_queue(utterances)) <= utterances.len() * 6_000_000_000,
        forall|i: int|
            0 <= i < playback_queue(utterances).len() ==> trimmed(
                (#[trigger] playback_queue(utterances)[i]).text,
            ).len() > 0,
    decreases utterances.len(),
{
    if utterances.len() > 0 {
        lemma_playback_queue(utterances.drop_last());
        let before = playback_queue(utterances.drop_last());
        let after = playback_queue(utterances);
        law_durations_are_bounded(utterances.last().text);
        assert(utterances.len() * 6_000_000_000 <= u64::MAX * 6_000_000_000) by (nonlinear_arith)
            requires
                utterances.len() <= u64::MAX,
        ;
        assert forall|i: int, j: int|
            #![trigger after[i], after[j]]
            0 <= i && j == i + 1 && j < after.len() implies after[j].starts_after
            == after[i].starts_after + after[i].duration by {
            assert(after[i] == before[i]);
            if j < before.len() {
                assert(after[j] == before[j]);
            }
        }
    }
}

/// The utterances of a playback queue are spoken, and follow each other without a gap.
pub proof fn law_playback_offsets_are_cumulative(utterances: Seq<Utterance>)
    requires
        utterances.len() <= u64::MAX,
    ensures
        follows_on(playback_queue(utterances)),
        forall|i: int|
            0 <= i < playback_queue(utterances).len() ==> trimmed(
                (#[trigger] playback_queue(utterances)[i]).text,
            ).len() > 0,
{
    lemma_playback_queue(utterances);
}

/// The prompt from which the facts of an utterance are stored.
pub open spec fn fact_store_prompt(utterance: Utterance) -> Seq<char> {
    "**"@ + utterance.speaker + ":** "@ + utterance.text
}

/// Writes the prompt from which the facts of an utterance are stored.
pub fn format_fact_store_prompt(utterance: &PlannedUtterance) -> (r: String)
    ensures
        r@ == fact_store_prompt(utterance.deep_view()),
{
    let mut text = "**".to_string();
    text.append(utterance.speaker.as_str());
    text.append(":** ");
    text.append(utterance.text.as_str());
    text
}

/// The command to extract the facts of the utterance with an index.
pub open spec fn extraction_command(transcript: Transcript, index: int) -> ExtractionCommand {
    ExtractionCommand::ExtractFactFromUtterance {
        request_id: transcript.session_id + ":extract:"@ + decimal(index as nat),
        session_id: transcript.session_id,
        utterance_index: index as usize,
        utterance: transcript.utterances[index],
    }
}

/// The command to store the facts of the utterance with an index for every participant.
pub open spec fn store_command(transcript: Transcript, index: int) -> StoreCommand {
    StoreCommand::StoreFactsFromPrompt {
        request_id: transcript.session_id + ":fact:"@ + decimal(index as nat),
        text: fact_store_prompt(transcript.utterances[index]),
        agents: transcript.participants,
    }
}

/// The commands to extract the facts of the first `n` utterances, those that are spoken.
pub open spec fn extraction_commands(transcript: Transcript, n: nat) -> Seq<ExtractionCommand>
    decreases n,
{
    if n == 0 {
        seq![]
    } else if is_spoken(transcript.utterances[n - 1]) {
        extraction_commands(transcript, (n - 1) as nat).push(extraction_command(transcript, n - 1))
    } else {
        extraction_commands(transcript, (n - 1) as nat)
    }
}

/// The commands to store the facts of the first `n` utterances, those that are spoken.
pub open spec fn store_commands(transcript: Transcript, n: nat) -> Seq<StoreCommand>
    decreases n,
{
    if n == 0 {
        seq![]
    } else if is_spoken(transcript.utterances[n - 1]) {
        store_commands(transcript, (n - 1) as nat).push(store_command(transcript, n - 1))
    } else {
        store_commands(transcript, (n - 1) as nat)
    }
}

/// The commands that the start of a playback gives.
#[derive(Debug, PartialEq)]
pub struct FactCommands {
    pub extraction: Vec<LlmFactExtractionCommand>,
    pub store: Vec<LlmFactStoreCommand>,
}

/// The state of a playback that starts.
pub open spec fn started_playback(transcript: Transcript, now: u128) -> PlaybackState {
    let queue = playback_queue(transcript.utterances);
    PlaybackState {
        session_id: Some(transcript.session_id),
        participants: transcript.participants,
        started_at: Some(now),
        queue,
        pending_fact_store_requests: queue.len() as usize,
        pending_fact_extraction_requests: queue.len() as usize,
    }
}

/// The state of a conversation round whose playback starts.
pub open spec fn started_transcript(transcript: Transcript, now: u128) -> TranscriptState {
    TranscriptState {
        phase: ConversationTranscriptPhase::ReplayingTranscript,
        session_id: Some(transcript.session_id),
        started_at: Some(now),
        completed_at: None,
    }
}

/// Starts the playback of a generated conversation, and gives the commands to draw facts
/// from its utterances.
pub fn start_generated_conversation(
    transcript: &mut ConversationTranscriptState,
    playback: &mut ConversationPlaybackState,
    conversation: &GeneratedConversation,
    now: u128,
) -> (commands: FactCommands)
    ensures
        final(transcript).deep_view() == started_transcript(conversation.deep_view(), now),
        final(playback).deep_view() == started_playback(conversation.deep_view(), now),
        commands.extraction.deep_view() == extraction_commands(
            conversation.deep_view(),
            conversation.deep_view().utterances.len(),
        ),
        commands.store.deep_view() == store_commands(
            conversation.deep_view(),
            conversation.deep_view().utterances.len(),
        ),
{
    transcript.phase = ConversationTranscriptPhase::ReplayingTranscript;
    transcript.session_id = Some(conversation.session_id.clone());
    transcript.started_at = Some(now);
    transcript.completed_at = None;
    let participants = conversation.participants.clone();
    assert(participants.deep_view() =~= conversation.participants.deep_view());
    playback.session_id = Some(conversation.session_id.clone());
    playback.participants = participants;
    playback.started_at = Some(now);
    playback.queue = build_playback_queue(conversation);
    playback.pending_fact_store_requests = playback.queue.len();
    playback.pending_fact_extraction_requests = playback.queue.len();
    assert(playback.queue.deep_view().len() == playback.queue@.len());
    fact_commands(conversation)
}

fn fact_commands(conversation: &GeneratedConversation) -> (commands: FactCommands)
    ensures
        commands.extraction.deep_view() == extraction_commands(
            conversation.deep_view(),
            conversation.deep_view().utterances.len(),
        ),
        commands.store.deep_view() == store_commands(
            conversation.deep_view(),
            conversation.deep_view().utterances.len(),
        ),
{
    let ghost whole = conversation.deep_view();
    let mut extraction: Vec<LlmFactExtractionCommand> = Vec::new();
    let mut store: Vec<LlmFactStoreCommand> = Vec::new();
    let mut i: usize = 0;
    assert(extraction.deep_view() =~= seq![]);
    assert(store.deep_view() =~= seq![]);
    while i < conversation.utterances.len()
        invariant
            i <= conversation.utterances.len(),
            whole == conversation.deep_view(),
            extraction.deep_view() == extraction_commands(whole, i as nat),
            store.deep_view() == store_commands(whole, i as nat),
        decreases conversation.utterances.len() - i,
    {
        let utterance = &conversation.utterances[i];
        assert(whole.utterances[i as int] == utterance.deep_view());
        if trim(utterance.text.as_str()).unicode_len() > 0 {
            let index = decimal_text(i);
            let mut extract_id = conversation.session_id.clone();
            extract_id.append(":extract:");
            extract_id.append(index.as_str());
            let mut fact_id = conversation.session_id.clone();
            fact_id.append(":fact:");
            fact_id.append(index.as_str());
            let extract = LlmFactExtractionCommand::ExtractFactFromUtterance {
                request_id: extract_id,
                session_id: conversation.session_id.clone(),
                utterance_index: i,
                utterance: utterance.clone(),
            };
            assert(extract.deep_view() == extraction_command(whole, i as int));
            let agents = conversation.participants.clone();
            assert(agents.deep_view() =~= conversation.participants.deep_view());
            let keep = LlmFactStoreCommand::StoreFactsFromPrompt {
                request_id: fact_id,
                text: format_fact_store_prompt(utterance),
                agents,
            };
            assert(keep.deep_view() == store_command(whole, i as int));
            let ghost extracting = extraction.deep_view();
            let ghost storing = store.deep_view();
            extraction.push(extract);
            store.push(keep);
            assert(extraction.deep_view() =~= extracting.push(extract.deep_view()));
            assert(store.deep_view() =~= storing.push(keep.deep_view()));
        }
        i = i + 1;
    }
    assert(whole.utterances.len() == conversation.utterances.len());
    FactCommands { extraction, store }
}

/// One command of each kind is given for every utterance that is played, and as many
/// answers are awaited.
pub proof fn law_each_played_utterance_is_drawn_from(transcript: Transcript, now: u128)
    requires
        transcript.utterances.len() <= usize::MAX,
    ensures
        extraction_commands(transcript, transcript.utterances.len()).len() == started_playback(
            transcript,
            now,
        ).pending_fact_extraction_requests,
        store_commands(transcript, transcript.utterances.len()).len() == started_playback(
            transcript,
            now,
        ).pending_fact_store_requests,
{
    lemma_commands(transcript, transcript.utterances.len());
    assert(transcript.utterances.take(transcript.utterances.len() as int)
        =~= transcript.utterances);
}

proof fn lemma_commands(transcript: Transcript, n: nat)
    requires
        n <= transcript.utterances.len(),
    ensures
        extraction_commands(transcript, n).len() == playback_queue(
            transcript.utterances.take(n as int),
        ).len(),
        store_commands(transcript, n).len() == playback_queue(
            transcript.utterances.take(n as int),
        ).len(),
        playback_queue(transcript.utterances.take(n as int)).len() <= n,
    decreases n,
{
    if n > 0 {
        lemma_commands(transcript, (n - 1) as nat);
        assert(transcript.utterances.take(n as int).drop_last() =~= transcript.utterances.take(
            n - 1,
        ));
    }
}

/// The state of a conversation round whose generation failed.
pub open spec fn failed_transcript(before: TranscriptState, session_id: Seq<char>, now: u128) ->
    TranscriptState {
    TranscriptState {
        phase: ConversationTranscriptPhase::Complete,
        session_id: Some(session_id),
        completed_at: Some(now),
        ..before
    }
}

/// The state of a playback whose conversation could not be generated.
pub open spec fn failed_playback(session_id: Seq<char>) -> PlaybackState {
    PlaybackState {
        session_id: Some(session_id),
        participants: seq![],
        started_at: None,
        queue: seq![],
        pending_fact_store_requests: 0,
        pending_fact_extraction_requests: 0,
    }
}

/// Takes in that a conversation was generated or that its generation failed.
pub fn handle_generated_conversation_event(
    transcript: &mut ConversationTranscriptState,
    playback: &mut ConversationPlaybackState,
    event: &LlmConversationGenerationEvent,
    now: u128,
) -> (commands: FactCommands)
    ensures
        match event.deep_view() {
            GenerationEvent::ConversationGenerated { conversation } => {
                &&& final(transcript).deep_view() == started_transcript(conversation, now)
                &&& final(playback).deep_view() == started_playback(conversation, now)
                &&& commands.extraction.deep_view() == extraction_commands(
                    conversation,
                    conversation.utterances.len(),
                )
                &&& commands.store.deep_view() == store_commands(
                    conversation,
                    conversation.utterances.len(),
                )
            },
            GenerationEvent::ConversationGenerationFailed { session_id, reason } => {
                &&& final(transcript).deep_view() == failed_transcript(
                    old(transcript).deep_view(),
                    session_id,
                    now,
                )
                &&& final(playback).deep_view() == failed_playback(session_id)
                &&& commands.extraction.len() == 0
                &&& commands.store.len() == 0
            },
        },
{
    match event {
        LlmConversationGenerationEvent::ConversationGenerated { conversation } => {
            start_generated_conversation(transcript, playback, conversation, now)
        },
        LlmConversationGenerationEvent::ConversationGenerationFailed { session_id, reason: _ } => {
            transcript.phase = ConversationTranscriptPhase::Complete;
            transcript.session_id = Some(session_id.clone());
            transcript.completed_at = Some(now);
            playback.queue = VecDeque::new();
            playback.pending_fact_store_requests = 0;
            playback.pending_fact_extraction_requests = 0;
            playback.session_id = Some(session_id.clone());
            playback.started_at = None;
            playback.participants = Vec::new();
            assert(playback.participants.deep_view() =~= seq![]);
            assert(playback.queue.deep_view() =~= seq![]);
            FactCommands { extraction: Vec::new(), store: Vec::new() }
        },
    }
}

/// The state of a conversation round, given how far its playback is: it replays until the
/// queue is empty, then collects facts until none are awaited, and then is complete.
pub open spec fn updated_transcript(
    transcript: TranscriptState,
    playback: PlaybackState,
    now: u128,
) -> TranscriptState {
    if playback.session_id is None {
        transcript
    } else if playback.queue.len() > 0 {
        TranscriptState { phase: ConversationTranscriptPhase::ReplayingTranscript, ..transcript }
    } else if playback.pending_fact_store_requests == 0 {
        TranscriptState {
            phase: ConversationTranscriptPhase::Complete,
            completed_at: Some(now),
            ..transcript
        }
    } else {
        TranscriptState { phase: ConversationTranscriptPhase::CollectingFacts, ..transcript }
    }
}

/// Brings the state of a conversation round up to date with its playback.
pub fn update_completion_state(
    transcript: &mut ConversationTranscriptState,
    playback: &ConversationPlaybackState,
    now: u128,
)
    ensures
        final(transcript).deep_view() == updated_transcript(
            old(transcript).deep_view(),
            playback.deep_view(),
            now,
        ),
{
    if playback.session_id.is_none() {
        return;
    }
    assert(playback.queue.deep_view().len() == playback.queue@.len());
    if playback.queue.len() > 0 {
        transcript.phase = ConversationTranscriptPhase::ReplayingTranscript;
        return;
    }
    if playback.pending_fact_store_requests == 0 {
        transcript.phase = ConversationTranscriptPhase::Complete;
        transcript.completed_at = Some(now);
    } else {
        transcript.phase = ConversationTranscriptPhase::CollectingFacts;
    }
}

/// A round of a session is complete exactly when nothing is left to play and no facts
/// are left to be stored.
pub proof fn law_complete_only_when_played_and_stored(
    transcript: TranscriptState,
    playback: PlaybackState,
    now: u128,
)
    requires
        playback.session_id is Some,
    ensures
        updated_transcript(transcript, playback, now).phase == ConversationTranscriptPhase::Complete
            <==> playback.queue.len() == 0 && playback.pending_fact_store_requests == 0,
{
}

/// A count of what is awaited, with that many less, but not below zero.
pub open spec fn less(awaited: usize, answers: nat) -> usize {
    if awaited >= answers {
        (awaited - answers) as usize
    } else {
        0
    }
}

/// Takes in the results of fact extractions: each of them, good or bad, is one less to
/// wait for.
pub fn record_fact_extraction_events(
    playback: &mut ConversationPlaybackState,
    transcript: &mut ConversationTranscriptState,
    events: &[LlmFactExtractionEvent],
    now: u128,
)
    ensures
        final(playback).deep_view() == (PlaybackState {
            pending_fact_extraction_requests: less(
                old(playback).pending_fact_extraction_requests,
                events@.len(),
            ),
            ..old(playback).deep_view()
        }),
        final(transcript).deep_view() == updated_transcript(
            old(transcript).deep_view(),
            final(playback).deep_view(),
            now,
        ),
{
    let mut i: usize = 0;
    while i < events.len()
        invariant
            i <= events.len(),
            playback.deep_view() == (PlaybackState {
                pending_fact_extraction_requests: less(
                    old(playback).pending_fact_extraction_requests,
                    i as nat,
                ),
                ..old(playback).deep_view()
            }),
        decreases events.len() - i,
    {
        playback.pending_fact_extraction_requests =
        playback.pending_fact_extraction_requests.saturating_sub(1);
        i = i + 1;
    }
    update_completion_state(transcript, playback, now);
}

/// The facts of an agent in a ledger.
pub open spec fn facts_of(ledger: Map<Seq<char>, Seq<Fact>>, agent: Seq<char>) -> Seq<Fact> {
    if ledger.dom().contains(agent) {
        ledger[agent]
    } else {
        seq![]
    }
}

/// A ledger with facts merged in for each of the agents, in order.
pub open spec fn merged_ledger(
    ledger: Map<Seq<char>, Seq<Fact>>,
    agents: Seq<Seq<char>>,
    facts: Seq<Fact>,
    today: Option<i64>,
) -> Map<Seq<char>, Seq<Fact>>
    decreases agents.len(),
{
    if agents.len() == 0 {
        ledger
    } else {
        let before = merged_ledger(ledger, agents.drop_last(), facts, today);
        before.insert(agents.last(), merged(facts_of(before, agents.last()), facts, today))
    }
}

impl Default for ParticipantFactLedger {
    fn default() -> (r: Self)
        ensures
            r.facts_by_agent.deep_view() == Map::<Seq<char>, Seq<Fact>>::empty(),
    {
        ParticipantFactLedger { facts_by_agent: Table::new() }
    }
}

impl ParticipantFactLedger {
    /// Merges facts in for each of the agents, on a day.
    pub fn merge_for_agents_on(
        &mut self,
        agents: &[String],
        facts: &[LlmConversationFact],
        today: Option<i64>,
    )
        ensures
            final(self).facts_by_agent.deep_view() == merged_ledger(
                old(self).facts_by_agent.deep_view(),
                agents.deep_view(),
                facts.deep_view(),
                today,
            ),
    {
        let ghost start = self.facts_by_agent.deep_view();
        let ghost all = agents.deep_view();
        let mut i: usize = 0;
        assert(all.take(0) =~= seq![]);
        while i < agents.len()
            invariant
                i <= agents.len(),
                start == old(self).facts_by_agent.deep_view(),
                all == agents.deep_view(),
                self.facts_by_agent.deep_view() == merged_ledger(
                    start,
                    all.take(i as int),
                    facts.deep_view(),
                    today,
                ),
            decreases agents.len() - i,
        {
            assert(all.take(i + 1).drop_last() =~= all.take(i as int));
            assert(all.take(i + 1).last() == agents@[i as int]@);
            let ghost before = self.facts_by_agent.deep_view();
            let agent = agents[i].clone();
            let mut stored = match self.facts_by_agent.remove(&agent) {
                Some(stored) => stored,
                None => Vec::new(),
            };
            assert(stored.deep_view() =~= facts_of(before, agent@));
            let incoming = copy_facts(facts);
            merge_conversation_facts_on(&mut stored, incoming, today);
            self.facts_by_agent.insert(agent, stored);
            assert(self.facts_by_agent.deep_view() =~= before.insert(agent@, stored.deep_view()));
            i = i + 1;
        }
        assert(all.take(all.len() as int) =~= all);
    }

    /// Merges facts in for each of the agents.
    pub fn merge_for_agents(&mut self, agents: &[String], facts: &[LlmConversationFact])
        ensures
            exists|now: std::time::SystemTime| #[trigger]
                call_ensures(std::time::SystemTime::now, (), now) && final(self).facts_by_agent.deep_view() == merged_ledger(
                    old(self).facts_by_agent.deep_view(),
                    agents.deep_view(),
                    facts.deep_view(),
                    day_at(now),
                ),
    {
        let today = current_utc_days_since_epoch();
        self.merge_for_agents_on(agents, facts, today);
    }
}

fn copy_facts(facts: &[LlmConversationFact]) -> (r: Vec<LlmConversationFact>)
    ensures
        r.deep_view() == facts.deep_view(),
{
    let mut copy: Vec<LlmConversationFact> = Vec::new();
    let mut i: usize = 0;
    while i < facts.len()
        invariant
            i <= facts.len(),
            copy.deep_view() == facts.deep_view().take(i as int),
        decreases facts.len() - i,
    {
        let ghost before = copy.deep_view();
        let fact = facts[i].clone();
        copy.push(fact);
        assert(copy.deep_view() =~= before.push(fact.deep_view()));
        assert(copy.deep_view() =~= facts.deep_view().take(i + 1));
        i = i + 1;
    }
    assert(copy.deep_view() =~= facts.deep_view());
    copy
}

proof fn lemma_other_agents_keep_facts(
    ledger: Map<Seq<char>, Seq<Fact>>,
    agents: Seq<Seq<char>>,
    facts: Seq<Fact>,
    today: Option<i64>,
    agent: Seq<char>,
)
    requires
        !agents.contains(agent),
    ensures
        facts_of(merged_ledger(ledger, agents, facts, today), agent) == facts_of(ledger, agent),
        merged_ledger(ledger, agents, facts, today).dom().contains(agent) == ledger.dom().contains(
            agent,
        ),
    decreases agents.len(),
{
    if agents.len() > 0 {
        assert(agents[agents.len() - 1] == agents.last());
        assert(agents.last() != agent);
        assert forall|i: int| 0 <= i < agents.drop_last().len() implies agents.drop_last()[i]
            != agent by {
            assert(agents[i] != agent);
        }
        lemma_other_agents_keep_facts(ledger, agents.drop_last(), facts, today, agent);
    }
}

/// Facts are merged in for each agent that is named, once if it is named once, and no
/// other agent's facts change.
pub proof fn law_facts_are_attributed_to_each_agent(
    ledger: Map<Seq<char>, Seq<Fact>>,
    agents: Seq<Seq<char>>,
    facts: Seq<Fact>,
    today: Option<i64>,
    agent: Seq<char>,
)
    requires
        agents.no_duplicates(),
    ensures
        facts_of(merged_ledger(ledger, agents, facts, today), agent) == if agents.contains(agent) {
            merged(facts_of(ledger, agent), facts, today)
        } else {
            facts_of(ledger, agent)
        },
    decreases agents.len(),
{
    if !agents.contains(agent) {
        lemma_other_agents_keep_facts(ledger, agents, facts, today, agent);
    } else {
        let shorter = agents.drop_last();
        assert(agents[agents.len() - 1] == agents.last());
        if agents.last() == agent {
            assert(!shorter.contains(agent)) by {
                if shorter.contains(agent) {
                    let k = choose|k: int| 0 <= k < shorter.len() && shorter[k] == agent;
                    assert(agents[k] == agents[agents.len() - 1]);
                }
            }
            lemma_other_agents_keep_facts(ledger, shorter, facts, today, agent);
        } else {
            let k = choose|k: int| 0 <= k < agents.len() && agents[k] == agent;
            assert(shorter[k] == agent);
            law_facts_are_attributed_to_each_agent(ledger, shorter, facts, today, agent);
        }
    }
}

/// A ledger with the facts that results of fact storage bring merged in, in order.
pub open spec fn recorded_ledger(
    ledger: Map<Seq<char>, Seq<Fact>>,
    events: Seq<StoreEvent>,
    today: Option<i64>,
) -> Map<Seq<char>, Seq<Fact>>
    decreases events.len(),
{
    if events.len() == 0 {
        ledger
    } else {
        let before = recorded_ledger(ledger, events.drop_last(), today);
        match events.last() {
            StoreEvent::FactsStored { request_id, agents, facts } => merged_ledger(
                before,
                agents,
                facts,
                today,
            ),
            StoreEvent::FactStorageFailed { request_id, agents, reason } => before,
        }
    }
}

/// Takes in the results of fact storage, on a day: the facts that were stored go into the
/// ledger, and each result, good or bad, is one less to wait for.
pub fn record_fact_store_events_on(
    transcript: &mut ConversationTranscriptState,
    playback: &mut ConversationPlaybackState,
    ledger: &mut ParticipantFactLedger,
    events: &[LlmFactStoreEvent],
    now: u128,
    today: Option<i64>,
)
    ensures
        final(playback).deep_view() == (PlaybackState {
            pending_fact_store_requests: less(
                old(playback).pending_fact_store_requests,
                events@.len(),
            ),
            ..old(playback).deep_view()
        }),
        final(ledger).facts_by_agent.deep_view() == recorded_ledger(
            old(ledger).facts_by_agent.deep_view(),
            events.deep_view(),
            today,
        ),
        final(transcript).deep_view() == updated_transcript(
            old(transcript).deep_view(),
            final(playback).deep_view(),
            now,
        ),
{
    let ghost start = ledger.facts_by_agent.deep_view();
    let ghost all = events.deep_view();
    let mut i: usize = 0;
    assert(all.take(0) =~= seq![]);
    while i < events.len()
        invariant
            i <= events.len(),
            start == old(ledger).facts_by_agent.deep_view(),
            all == events.deep_view(),
            playback.deep_view() == (PlaybackState {
                pending_fact_store_requests: less(
                    old(playback).pending_fact_store_requests,
                    i as nat,
                ),
                ..old(playback).deep_view()
            }),
            ledger.facts_by_agent.deep_view() == recorded_ledger(start, all.take(i as int), today),
        decreases events.len() - i,
    {
        assert(all.take(i + 1).drop_last() =~= all.take(i as int));
        assert(all.take(i + 1).last() == events@[i as int].deep_view());
        match &events[i] {
            LlmFactStoreEvent::FactsStored { request_id: _, agents, facts } => {
                ledger.merge_for_agents_on(agents.as_slice(), facts.as_slice(), today);
            },
            LlmFactStoreEvent::FactStorageFailed { .. } => {},
        }
        playback.pending_fact_store_requests =
        playback.pending_fact_store_requests.saturating_sub(1);
        i = i + 1;
    }
    assert(all.take(all.len() as int) =~= all);
    update_completion_state(transcript, playback, now);
}

/// Takes in the results of fact storage.
pub fn record_fact_store_events(
    transcript: &mut ConversationTranscriptState,
    playback: &mut ConversationPlaybackState,
    ledger: &mut ParticipantFactLedger,
    events: &[LlmFactStoreEvent],
    now: u128,
)
    ensures
        final(playback).deep_view() == (PlaybackState {
            pending_fact_store_requests: less(
                old(playback).pending_fact_store_requests,
                events@.len(),
            ),
            ..old(playback).deep_view()
        }),
        exists|read: std::time::SystemTime| #[trigger]
            call_ensures(std::time::SystemTime::now, (), read)
                && final(ledger).facts_by_agent.deep_view() == recorded_ledger(
                old(ledger).facts_by_agent.deep_view(),
                events.deep_view(),
                day_at(read),
            ),
        final(transcript).deep_view() == updated_transcript(
            old(transcript).deep_view(),
            final(playback).deep_view(),
            now,
        ),
{
    let today = current_utc_days_since_epoch();
    record_fact_store_events_on(transcript, playback, ledger, events, now, today);
}

/// How many utterances at the front of a queue are due.
pub open spec fn due_count(queue: Seq<Scheduled>, elapsed: int) -> nat
    decreases queue.len(),
{
    if queue.len() > 0 && elapsed >= queue[0].starts_after {
        1 + due_count(queue.drop_first(), elapsed)
    } else {
        0
    }
}

/// How much time has passed, on a clock that does not run backwards.
pub open spec fn elapsed_since(started_at: u128, now: u128) -> int {
    if now >= started_at {
        now - started_at
    } else {
        0
    }
}

/// How many utterances of a playback are due.
pub open spec fn due_now(playback: PlaybackState, now: u128) -> nat {
    match playback.started_at {
        Some(started_at) => due_count(playback.queue, elapsed_since(started_at, now)),
        None => 0,
    }
}

proof fn lemma_due_count(queue: Seq<Scheduled>, elapsed: int)
    ensures
        due_count(queue, elapsed) <= queue.len(),
    decreases queue.len(),
{
    if queue.len() > 0 && elapsed >= queue[0].starts_after {
        lemma_due_count(queue.drop_first(), elapsed);
    }
}

/// Plays the utterances that are due, and gives them. A playback that has not started
/// plays nothing.
pub fn play_generated_conversation(
    transcript: &mut ConversationTranscriptState,
    playback: &mut ConversationPlaybackState,
    now: u128,
) -> (played: Vec<ScheduledUtterance>)
    ensures
        played.deep_view() == old(playback).deep_view().queue.take(
            due_now(old(playback).deep_view(), now) as int,
        ),
        final(playback).deep_view() == (PlaybackState {
            queue: old(playback).deep_view().queue.skip(
                due_now(old(playback).deep_view(), now) as int,
            ),
            ..old(playback).deep_view()
        }),
        final(transcript).deep_view() == if old(playback).started_at is Some {
            updated_transcript(old(transcript).deep_view(), final(playback).deep_view(), now)
        } else {
            old(transcript).deep_view()
        },
{
    let ghost all = playback.queue.deep_view();
    let mut played: Vec<ScheduledUtterance> = Vec::new();
    assert(played.deep_view() =~= all.take(0));
    assert(all.skip(0) =~= all);
    let started_at = match playback.started_at {
        Some(started_at) => started_at,
        None => {
            return played;
        },
    };
    let elapsed: u128 = now.saturating_sub(started_at);
    let ghost mut n: int = 0;
    loop
        invariant
            all == old(playback).deep_view().queue,
            old(playback).started_at == Some(started_at),
            elapsed == elapsed_since(started_at, now),
            playback.deep_view() == (PlaybackState {
                queue: all.skip(n),
                ..old(playback).deep_view()
            }),
            transcript.deep_view() == old(transcript).deep_view(),
            0 <= n <= all.len(),
            played.deep_view() == all.take(n),
            due_count(all, elapsed as int) == n + due_count(all.skip(n), elapsed as int),
        ensures
            due_count(all, elapsed as int) == n,
        decreases all.len() - n,
    {
        assert(playback.queue.deep_view().len() == playback.queue@.len());
        if playback.queue.len() == 0 {
            break;
        }
        assert(all.skip(n)[0] == playback.queue@[0].deep_view());
        if elapsed < playback.queue[0].starts_after {
            break;
        }
        let ghost before = playback.queue.deep_view();
        if let Some(utterance) = playback.queue.pop_front() {
            let ghost heard = played.deep_view();
            played.push(utterance);
            assert(played.deep_view() =~= heard.push(utterance.deep_view()));
            assert(playback.queue.deep_view() =~= before.drop_first());
            assert(all.skip(n).drop_first() =~= all.skip(n + 1));
            assert(played.deep_view() =~= all.take(n + 1));
        }
        proof {
            n = n + 1;
        }
    }
    update_completion_state(transcript, playback, now);
    played
}

/// What is played and what stays in the queue are together the queue; what stays is not
/// due.
pub proof fn law_playing_takes_what_is_due(queue: Seq<Scheduled>, elapsed: int)
    ensures
        due_count(queue, elapsed) <= queue.len(),
        queue.take(due_count(queue, elapsed) as int) + queue.skip(due_count(queue, elapsed) as int)
            == queue,
        forall|i: int|
            0 <= i < due_count(queue, elapsed) ==> elapsed >= (#[trigger] queue[i]).starts_after,
        due_count(queue, elapsed) < queue.len() ==> elapsed < queue[due_count(
            queue,
            elapsed,
        ) as int].starts_after,
    decreases queue.len(),
{
    lemma_due_count(queue, elapsed);
    let n = due_count(queue, elapsed) as int;
    assert(queue.take(n) + queue.skip(n) =~= queue);
    if queue.len() > 0 && elapsed >= queue[0].starts_after {
        let rest = queue.drop_first();
        law_playing_takes_what_is_due(rest, elapsed);
        assert forall|i: int| 0 <= i < n implies elapsed >= (#[trigger] queue[i]).starts_after by {
            if i > 0 {
                assert(queue[i] == rest[i - 1]);
            }
        }
    }
}

/// The lines in which the facts of an agent are reported.
pub open spec fn ledger_lines(agent: Seq<char>, facts: Seq<Fact>) -> Seq<Seq<char>> {
    seq!["[facts] ledger agent="@ + agent + " count="@ + decimal(facts.len())] + Seq::new(
        facts.len(),
        |i: int| ledger_line(facts[i]),
    )
}

/// The line in which a fact is reported.
pub open spec fn ledger_line(fact: Fact) -> Seq<char> {
    "  - fact="@ + fact.fact + " importance="@ + fact.importance.rendered() + " expiry="@
        + fact.expiry
}

/// Writes the lines in which the facts of an agent are reported.
pub fn fact_ledger_lines(agent: &str, facts: &Vec<LlmConversationFact>) -> (r: Vec<String>)
    ensures
        r.deep_view() == ledger_lines(agent@, facts.deep_view()),
{
    let ghost all = facts.deep_view();
    let mut heading = "[facts] ledger agent=".to_string();
    heading.append(agent);
    heading.append(" count=");
    heading.append(decimal_text(facts.len()).as_str());
    let mut lines: Vec<String> = Vec::new();
    lines.push(heading);
    assert(lines.deep_view() =~= ledger_lines(agent@, all).take(1));
    let mut i: usize = 0;
    while i < facts.len()
        invariant
            i <= facts.len(),
            all == facts.deep_view(),
            lines.deep_view() == ledger_lines(agent@, all).take(i + 1),
        decreases facts.len() - i,
    {
        let fact = &facts[i];
        let mut line = "  - fact=".to_string();
        line.append(fact.fact.as_str());
        line.append(" importance=");
        line.append(fact.importance.two_decimals().as_str());
        line.append(" expiry=");
        line.append(fact.expiry.as_str());
        let ghost before = lines.deep_view();
        lines.push(line);
        assert(lines.deep_view() =~= before.push(line@));
        assert(all[i as int] == fact.deep_view());
        assert(lines.deep_view() =~= ledger_lines(agent@, all).take(i + 2));
        i = i + 1;
    }
    assert(lines.deep_view() =~= ledger_lines(agent@, all));
    lines
}

} // verus!
