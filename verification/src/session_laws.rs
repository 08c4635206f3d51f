//! What the generation of conversations and the extraction and storage of facts keep of
//! what they are given.

use crate::bridge::{looked_up, Bridge, Refresh, RefreshOutcome, TurnResult};
use crate::events::{
    ExtractionEvent, GenerationEvent, LlmFactExtractionEvent, LlmFactStoreEvent, StoreEvent,
};
use crate::fact_laws::{all_distinct, law_first_facts_are_stored_as_they_are};
use crate::facts::MAX_FACTS;
use crate::generation::{
    deduped, display_name, generation_prompt, id_line, law_accepting_keeps_each_utterance,
    participant_lines, participant_of, prior_fact_line, prior_facts, GenerationRequest,
    GENERATED_CONVERSATION_MAX_UTTERANCES,
};
use crate::history::refresh_completed;
use crate::history_laws::{law_appending_keeps_what_was_there, law_refreshes_store_what_was_drawn};
use crate::json::text_member;
use crate::model::mode_name;
use crate::sessions::{
    after_fact_store, after_generation, after_generation_start, after_generation_taken_up,
    extraction_result, finish_fact_extraction, generation_event, generation_request,
    generation_result, generation_task, handle_extracted_facts, handle_stored_facts, is_latest,
    next_generation, start_fact_store, store_result, utterance_thread, Extracted,
    FactExtractionRequest, FactExtractionResult, FactStoreRequest, FactStoreResult,
};
use crate::text::{concatenated, has_suffix, occurs, trimmed};
use crate::text_laws::{
    law_each_part_stands_in_the_whole, law_ends_of_sums, law_parts_of_parts_stand_in_the_whole,
    law_parts_stand_in_sums,
};
use crate::turn::is_error;
use crate::types::{Fact, LlmConversationEntryKind, LlmResponseMode, Utterance, WorldContext};
use vstd::prelude::*;

verus! {

/// The facts of an utterance are those of the refreshed thread, all of them and in order;
/// where the refresh was cancelled or failed there are none, and a reason instead.
pub proof fn law_extracted_facts_are_those_of_the_thread(refresh: Refresh)
    ensures
        refresh matches Refresh::Refreshed(thread) ==> extraction_result(refresh) == Ok::<
            Seq<Fact>,
            Seq<char>,
        >(thread.facts),
        refresh matches Refresh::Failed(reason) ==> extraction_result(refresh) matches Err(report)
            && is_error(report) && has_suffix(report, reason),
        extraction_result(refresh) is Ok <==> refresh is Refreshed,
{
    if let Refresh::Failed(reason) = refresh {
        crate::turn::law_reported_errors_are_errors(reason);
        law_ends_of_sums();
    }
}

/// The game is told of the facts of an utterance: the event of an extraction whose refresh
/// came through holds exactly the facts of the refreshed thread, under the request's id,
/// session, index and utterance. Else it is told of a failure, under the same.
pub proof fn law_the_game_is_told_of_extracted_facts(
    request: FactExtractionRequest,
    refresh: RefreshOutcome,
    done: FactExtractionResult,
    event: LlmFactExtractionEvent,
)
    requires
        call_ensures(finish_fact_extraction, (request, refresh), done),
        call_ensures(handle_extracted_facts, (done,), event),
    ensures
        match refresh {
            RefreshOutcome::Refreshed(thread) => event.deep_view()
                == (ExtractionEvent::FactsExtractedFromUtterance {
                request_id: request.request_id@,
                session_id: request.session_id@,
                utterance_index: request.utterance_index,
                utterance: request.utterance.deep_view(),
                facts: thread.facts.deep_view(),
            }),
            _ => {
                &&& event.deep_view() matches ExtractionEvent::FactExtractionFailedForUtterance {
                    request_id,
                    session_id,
                    utterance_index,
                    utterance,
                    reason,
                }
                &&& request_id == request.request_id@
                &&& session_id == request.session_id@
                &&& utterance_index == request.utterance_index
                &&& utterance == request.utterance.deep_view()
            },
        },
{
}

/// Facts are extracted from what the utterance says, in its speaker's name, and from
/// nothing else.
pub proof fn law_facts_are_extracted_from_the_utterance(utterance: Utterance)
    ensures
        ({
            let thread = utterance_thread(utterance);
            &&& thread.entries.len() == 1
            &&& thread.entries[0].speaker == utterance.speaker
            &&& thread.entries[0].text == utterance.text
            &&& thread.entries[0].kind == LlmConversationEntryKind::Chat
            &&& thread.entries[0].extractable
            &&& thread.facts.len() == 0
        }),
{
    law_appending_keeps_what_was_there(
        crate::types::empty_thread(),
        utterance.speaker,
        utterance.text,
        LlmConversationEntryKind::Chat,
        true,
    );
    let thread = utterance_thread(utterance);
    assert(thread.entries[0] == thread.entries.last());
}

/// Every fact that is drawn from an utterance reaches the game: facts with texts of their
/// own, no more of them than are kept, all stand in the event, and no others.
pub proof fn law_each_drawn_fact_reaches_the_game(
    request: FactExtractionRequest,
    refresh: RefreshOutcome,
    done: FactExtractionResult,
    event: LlmFactExtractionEvent,
    drawn: Seq<Fact>,
    today: Option<i64>,
)
    requires
        refresh.deep_view() == Refresh::Refreshed(
            refresh_completed(utterance_thread(request.deep_view().utterance), drawn, today),
        ),
        call_ensures(finish_fact_extraction, (request, refresh), done),
        call_ensures(handle_extracted_facts, (done,), event),
        all_distinct(drawn),
        drawn.len() <= MAX_FACTS,
    ensures
        event.deep_view() matches ExtractionEvent::FactsExtractedFromUtterance {
            request_id,
            session_id,
            utterance_index,
            utterance,
            facts,
        } && facts.to_multiset() == drawn.to_multiset(),
{
    let thread = utterance_thread(request.deep_view().utterance);
    law_the_game_is_told_of_extracted_facts(request, refresh, done, event);
    law_refreshes_store_what_was_drawn(thread, drawn, today);
    law_facts_are_extracted_from_the_utterance(request.deep_view().utterance);
    assert(thread.facts =~= seq![]);
    law_first_facts_are_stored_as_they_are(drawn, today);
}

/// The facts that were extracted are the facts that are stored, all of them and in order; a
/// failure gives its reason.
pub proof fn law_stored_facts_are_those_that_were_extracted(extracted: Extracted)
    ensures
        extracted matches Extracted::Extracted(facts) ==> store_result(extracted) == Ok::<
            Seq<Fact>,
            Seq<char>,
        >(facts),
        extracted matches Extracted::Failed(reason) ==> store_result(extracted) matches Err(report)
            && is_error(report) && has_suffix(report, reason),
        store_result(extracted) is Ok <==> extracted is Extracted,
{
    if let Extracted::Failed(reason) = extracted {
        crate::turn::law_reported_errors_are_errors(reason);
        law_ends_of_sums();
    }
}

/// The game is told of stored facts as they are, under the request's id and for its agents.
pub proof fn law_the_game_is_told_of_stored_facts(
    done: FactStoreResult,
    event: LlmFactStoreEvent,
)
    requires
        call_ensures(handle_stored_facts, (done,), event),
    ensures
        match done.result {
            Ok(facts) => event.deep_view() == (StoreEvent::FactsStored {
                request_id: done.request_id@,
                agents: done.agents.deep_view(),
                facts: facts.deep_view(),
            }),
            Err(reason) => event.deep_view() == (StoreEvent::FactStorageFailed {
                request_id: done.request_id@,
                agents: done.agents.deep_view(),
                reason: reason@,
            }),
        },
{
}

/// A request to store facts is taken up with its text and id as they are and with each of
/// its agents once, exactly when it names an agent.
pub proof fn law_store_requests_keep_their_text(
    request: FactStoreRequest,
    taken: Result<FactStoreRequest, FactStoreResult>,
)
    requires
        call_ensures(start_fact_store, (request,), taken),
    ensures
        taken is Ok <==> request.agents@.len() > 0,
        taken matches Ok(kept) ==> {
            &&& kept.text@ == request.text@
            &&& kept.request_id@ == request.request_id@
            &&& kept.agents.deep_view().no_duplicates()
            &&& forall|agent: Seq<char>| #[trigger]
                kept.agents.deep_view().contains(agent) <==> request.agents.deep_view().contains(
                    agent,
                )
        },
        taken matches Err(refused) ==> refused.request_id@ == request.request_id@
            && refused.result is Err,
{
    crate::generation::law_participants_are_kept_once(request.agents.deep_view());
}

/// Storing facts changes threads alone, and a failure changes nothing.
pub proof fn law_failed_storage_changes_nothing(
    bridge: Bridge,
    agents: Seq<Seq<char>>,
    extracted: Extracted,
    today: Option<i64>,
)
    ensures
        !(extracted is Extracted) ==> after_fact_store(bridge, agents, extracted, today) == bridge,
        after_fact_store(bridge, agents, extracted, today).worlds == bridge.worlds,
        after_fact_store(bridge, agents, extracted, today).generated == bridge.generated,
        after_fact_store(bridge, agents, extracted, today).cancellations == bridge.cancellations,
        agents.len() == 0 ==> after_fact_store(bridge, agents, extracted, today).conversations
            == bridge.conversations,
{
}

/// The request to generate a conversation carries what the command gave: the session, the
/// situation and the facts as they are, and each participant once, described by its own
/// world; it is the session's next generation.
pub proof fn law_generation_requests_carry_the_command(
    bridge: Bridge,
    session_id: Seq<char>,
    participants: Seq<Seq<char>>,
    initial_message: Seq<char>,
    facts: Seq<Seq<char>>,
)
    ensures
        ({
            let request = generation_request(
                bridge,
                session_id,
                participants,
                initial_message,
                facts,
            );
            &&& request.session_id == session_id
            &&& request.initial_message == initial_message
            &&& request.facts == facts
            &&& request.participants.no_duplicates()
            &&& forall|id: Seq<char>| #[trigger]
                request.participants.contains(id) <==> participants.contains(id)
            &&& request.participant_profiles.len() == request.participants.len()
            &&& forall|i: int|
                0 <= i < request.participants.len() ==> {
                    &&& (#[trigger] request.participant_profiles[i]).id == request.participants[i]
                    &&& request.participant_profiles[i] == participant_of(
                        request.participants[i],
                        looked_up(bridge.worlds, request.participants[i]),
                    )
                }
            &&& request.tool_calling == bridge.tool_calling
            &&& is_latest(
                after_generation_start(bridge, session_id, participants),
                session_id,
                request.generation,
            )
        }),
{
    crate::generation::law_participants_are_kept_once(participants);
}

/// The first participant that is named is the first one that is kept, and participants keep
/// the order in which they are first named: more of them add only behind the others.
pub proof fn law_participants_keep_their_order(
    participants: Seq<Seq<char>>,
    more: Seq<Seq<char>>,
)
    ensures
        deduped(participants).len() <= deduped(participants + more).len(),
        deduped(participants + more).take(deduped(participants).len() as int) == deduped(
            participants,
        ),
        participants.len() > 0 ==> deduped(participants)[0] == participants[0],
    decreases more.len(), participants.len(),
{
    if more.len() > 0 {
        law_participants_keep_their_order(participants, more.drop_last());
        assert((participants + more).drop_last() =~= participants + more.drop_last());
        let n = deduped(participants).len() as int;
        assert(deduped(participants + more).take(n) =~= deduped(
            participants + more.drop_last(),
        ).take(n));
    } else {
        assert(participants + more =~= participants);
        assert(deduped(participants).take(deduped(participants).len() as int) =~= deduped(
            participants,
        ));
        if participants.len() > 1 {
            law_participants_keep_their_order(participants.drop_last(), more);
            crate::generation::law_participants_are_kept_once(participants.drop_last());
        } else if participants.len() == 1 {
            assert(participants.drop_last() =~= seq![]);
            assert(deduped(participants.drop_last()) =~= seq![]);
        }
    }
}

/// A participant is described by its world: by the name, the persona and the goal that
/// stand there, trimmed; by its id where there is no name, and by nothing where a field is
/// blank or missing.
pub proof fn law_participants_are_described_by_their_worlds(
    id: Seq<char>,
    world: Option<WorldContext>,
)
    ensures
        participant_of(id, world).id == id,
        ({
            let told = |field: Seq<char>| match world {
                Some(world) => match text_member(world.world_view, field) {
                    Some(text) => trimmed(text),
                    None => seq![],
                },
                None => seq![],
            };
            let described = participant_of(id, world);
            &&& described.display_name == if told("agent_name"@).len() > 0 {
                told("agent_name"@)
            } else {
                id
            }
            &&& described.persona == told("persona"@)
            &&& described.current_goal == told("current_goal"@)
        }),
{
    reveal_strlit("");
    assert(""@ =~= seq![]);
    let described = participant_of(id, world);
    assert(described.persona =~= match world {
        Some(world) => match text_member(world.world_view, "persona"@) {
            Some(text) => trimmed(text),
            None => seq![],
        },
        None => seq![],
    });
    assert(described.current_goal =~= match world {
        Some(world) => match text_member(world.world_view, "current_goal"@) {
            Some(text) => trimmed(text),
            None => seq![],
        },
        None => seq![],
    });
}

/// The prompt for a conversation shows the situation, every fact that is not blank, and of
/// every participant the id, the name, the persona and the goal, as far as they are given.
pub proof fn law_generation_prompts_show_everything(request: GenerationRequest)
    ensures
        ({
            let prompt = generation_prompt(request);
            &&& occurs(prompt, request.initial_message)
            &&& occurs(prompt, mode_name(request.tool_calling))
            &&& forall|i: int|
                0 <= i < request.facts.len() && trimmed(request.facts[i]).len() > 0 ==> occurs(
                    prompt,
                    trimmed(#[trigger] request.facts[i]),
                )
            &&& forall|i: int|
                0 <= i < request.participant_profiles.len() ==> {
                    let participant = #[trigger] request.participant_profiles[i];
                    &&& occurs(prompt, "- "@ + participant.id + "\n"@)
                    &&& occurs(prompt, participant.display_name)
                    &&& trimmed(participant.persona).len() > 0 ==> occurs(
                        prompt,
                        participant.persona,
                    )
                    &&& trimmed(participant.current_goal).len() > 0 ==> occurs(
                        prompt,
                        participant.current_goal,
                    )
                }
        }),
{
    law_parts_stand_in_sums();
    let prompt = generation_prompt(request);
    let fact_lines = Seq::new(request.facts.len(), |i: int| prior_fact_line(request.facts[i]));
    let profiles = request.participant_profiles;
    let blocks = Seq::new(profiles.len(), |i: int| participant_lines(profiles[i]));
    let ids = Seq::new(profiles.len(), |i: int| id_line(profiles[i]));
    assert(occurs(prompt, concatenated(blocks)));
    assert(occurs(prompt, concatenated(ids)));
    assert(occurs(prompt, prior_facts(request.facts)));
    assert forall|i: int|
        0 <= i < request.facts.len() && trimmed(request.facts[i]).len() > 0 implies occurs(
        prompt,
        trimmed(#[trigger] request.facts[i]),
    ) by {
        law_each_part_stands_in_the_whole(fact_lines, i);
        assert(occurs(prior_facts(request.facts), concatenated(fact_lines)));
        let line = fact_lines[i];
        assert(occurs(line, trimmed(request.facts[i])));
        law_parts_of_parts_stand_in_the_whole(
            prior_facts(request.facts),
            concatenated(fact_lines),
            line,
        );
        law_parts_of_parts_stand_in_the_whole(prompt, prior_facts(request.facts), line);
        law_parts_of_parts_stand_in_the_whole(prompt, line, trimmed(request.facts[i]));
    }
    assert forall|i: int| 0 <= i < profiles.len() implies {
        let participant = #[trigger] profiles[i];
        &&& occurs(prompt, "- "@ + participant.id + "\n"@)
        &&& occurs(prompt, participant.display_name)
        &&& trimmed(participant.persona).len() > 0 ==> occurs(prompt, participant.persona)
        &&& trimmed(participant.current_goal).len() > 0 ==> occurs(
            prompt,
            participant.current_goal,
        )
    } by {
        let participant = profiles[i];
        law_each_part_stands_in_the_whole(blocks, i);
        law_each_part_stands_in_the_whole(ids, i);
        assert(ids[i] == "- "@ + participant.id + "\n"@);
        law_parts_of_parts_stand_in_the_whole(prompt, concatenated(ids), ids[i]);
        let block = blocks[i];
        law_parts_of_parts_stand_in_the_whole(prompt, concatenated(blocks), block);
        assert(occurs(block, participant.display_name));
        law_parts_of_parts_stand_in_the_whole(prompt, block, participant.display_name);
        if trimmed(participant.persona).len() > 0 {
            assert(occurs(block, participant.persona));
            law_parts_of_parts_stand_in_the_whole(prompt, block, participant.persona);
        }
        if trimmed(participant.current_goal).len() > 0 {
            assert(occurs(block, participant.current_goal));
            law_parts_of_parts_stand_in_the_whole(prompt, block, participant.current_goal);
        }
    }
}

/// The task that generates a conversation asks its prompt in the session's name, of its
/// first participant, for a structured reply without tools.
pub proof fn law_generation_tasks_ask_the_prompt(request: GenerationRequest)
    ensures
        generation_task(request).prompt == generation_prompt(request),
        generation_task(request).conversation_id == Some(request.session_id),
        request.participants.len() > 0 ==> generation_task(request).agent
            == request.participants[0],
        generation_task(request).response_mode == LlmResponseMode::StructuredJson,
        generation_task(request).tools.len() == 0,
        generation_task(request).facts.len() == 0,
        generation_task(request).world is None,
        generation_task(request).conversation is None,
{
}

/// The game is told of a conversation that was generated: its session, the participants
/// that the session was started with, and all its utterances in order. Of a failure it is
/// told the session and the reason.
pub proof fn law_the_game_is_told_of_the_conversation(
    bridge: Bridge,
    session_id: Seq<char>,
    participants: Seq<Seq<char>>,
    result: Result<Seq<Utterance>, Seq<char>>,
)
    ensures
        ({
            let started = after_generation_start(bridge, session_id, participants);
            match (result, generation_event(started, session_id, result)) {
                (Ok(utterances), GenerationEvent::ConversationGenerated { conversation }) => {
                    &&& conversation.session_id == session_id
                    &&& conversation.utterances == utterances
                    &&& forall|id: Seq<char>| #[trigger]
                        conversation.participants.contains(id) <==> participants.contains(id)
                },
                (
                    Err(reason),
                    GenerationEvent::ConversationGenerationFailed { session_id: told, reason: why },
                ) => told == session_id && why == reason,
                _ => false,
            }
        }),
{
    crate::generation::law_participants_are_kept_once(participants);
}

/// A reply that was read and is accepted gives its utterances, each as it was read but
/// trimmed; a failure gives its reason, and a cancelled generation gives nothing.
pub proof fn law_generated_conversations_keep_their_utterances(
    request: GenerationRequest,
    result: TurnResult,
    read: Result<Seq<Utterance>, Seq<char>>,
)
    ensures
        generation_result(request, result, read) is None <==> result is Cancelled,
        result matches TurnResult::Failed(reason) ==> generation_result(request, result, read)
            matches Some(Err(report)) && is_error(report) && has_suffix(report, reason),
        result is Generated && (generation_result(request, result, read) matches Some(
            Ok(utterances),
        )) ==> {
            let utterances = generation_result(request, result, read)->0->Ok_0;
            &&& read is Ok
            &&& utterances.len() == read->Ok_0.len() <= GENERATED_CONVERSATION_MAX_UTTERANCES
            &&& forall|i: int|
                0 <= i < utterances.len() ==> {
                    &&& (#[trigger] utterances[i]).speaker == read->Ok_0[i].speaker
                    &&& utterances[i].text == trimmed(read->Ok_0[i].text)
                    &&& utterances[i].tool_calls == read->Ok_0[i].tool_calls
                }
        },
{
    law_accepting_keeps_each_utterance(
        read,
        request.participants,
        GENERATED_CONVERSATION_MAX_UTTERANCES as nat,
    );
    crate::generation::law_accepted_utterances(
        read,
        request.participants,
        GENERATED_CONVERSATION_MAX_UTTERANCES as nat,
    );
    if let TurnResult::Failed(reason) = result {
        crate::turn::law_reported_errors_are_errors(reason);
        law_ends_of_sums();
    }
}

/// Starting, taking up and ending a generation concern its session alone: other sessions
/// keep their generations and tokens, and no thread and no world changes.
pub proof fn law_generations_concern_one_session(
    bridge: Bridge,
    session_id: Seq<char>,
    participants: Seq<Seq<char>>,
    generation: u64,
    other: Seq<char>,
)
    requires
        other != session_id,
    ensures
        ({
            let same = |after: Bridge|
                {
                    &&& looked_up(after.generated, other) == looked_up(bridge.generated, other)
                    &&& looked_up(after.generated_cancellations, other) == looked_up(
                        bridge.generated_cancellations,
                        other,
                    )
                    &&& after.conversations == bridge.conversations
                    &&& after.worlds == bridge.worlds
                    &&& after.cancellations == bridge.cancellations
                };
            &&& same(after_generation_start(bridge, session_id, participants))
            &&& same(after_generation_taken_up(bridge, session_id))
            &&& same(after_generation(bridge, session_id, generation))
        }),
{
}

/// The generations of a session are counted from one, and the next one is another until
/// the numbers are used up.
pub proof fn law_generations_are_counted(
    bridge: Bridge,
    session_id: Seq<char>,
    participants: Seq<Seq<char>>,
)
    ensures
        !bridge.generated.dom().contains(session_id) ==> next_generation(bridge, session_id) == 1,
        next_generation(bridge, session_id) < u64::MAX ==> next_generation(
            after_generation_start(bridge, session_id, participants),
            session_id,
        ) == next_generation(bridge, session_id) + 1,
{
}

/// A generation that is taken up has a token, the one that it was started with; when the
/// latest generation of a session is done its token is gone, and when an older one is done
/// nothing changes.
pub proof fn law_generation_tokens(
    bridge: Bridge,
    session_id: Seq<char>,
    generation: u64,
)
    ensures
        after_generation_taken_up(bridge, session_id).generated_cancellations.dom().contains(
            session_id,
        ),
        bridge.generated_cancellations.dom().contains(session_id) ==> after_generation_taken_up(
            bridge,
            session_id,
        ) == bridge,
        is_latest(bridge, session_id, generation) ==> looked_up(
            after_generation(bridge, session_id, generation).generated_cancellations,
            session_id,
        ) is None && after_generation(bridge, session_id, generation).generated
            == bridge.generated,
        !is_latest(bridge, session_id, generation) ==> after_generation(
            bridge,
            session_id,
            generation,
        ) == bridge,
{
}

} // verus!
