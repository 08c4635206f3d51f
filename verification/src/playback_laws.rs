//! What the playback of a generated conversation keeps of it.

use crate::events::{ExtractionCommand, StoreEvent};
use crate::facts::merged;
use crate::pace::{comma_count, stop_count, utterance_nanos, word_count};
use crate::playback::{
    due_count, due_now, extraction_commands, fact_store_prompt, facts_of, failed_playback,
    failed_transcript, follows_on, law_facts_are_attributed_to_each_agent,
    law_playing_takes_what_is_due, ledger_lines, less, playback_queue, recorded_ledger,
    started_playback, started_transcript, store_commands, updated_transcript,
    ConversationTranscriptPhase, PlaybackState, Scheduled, TranscriptState,
};
use crate::text::{decimal, digit, has_prefix, has_suffix, is_white_space, occurs, trimmed};
use crate::text_laws::{law_ends_of_sums, law_parts_stand_in_sums};
use crate::types::{Fact, Transcript, Utterance};
use vstd::prelude::*;

verus! {

/// The utterances that say something.
pub open spec fn spoken(utterances: Seq<Utterance>) -> Seq<Utterance> {
    utterances.filter(|utterance: Utterance| trimmed(utterance.text).len() > 0)
}

proof fn lemma_spoken_push(utterances: Seq<Utterance>, next: Utterance)
    ensures
        spoken(utterances.push(next)) == if trimmed(next.text).len() > 0 {
            spoken(utterances).push(next)
        } else {
            spoken(utterances)
        },
{
    reveal(Seq::filter);
    assert(utterances.push(next).drop_last() =~= utterances);
}

/// A playback queue holds exactly the utterances that say something, in order, each with
/// its own speaker and its own text.
pub proof fn law_queue_holds_the_spoken_lines(utterances: Seq<Utterance>)
    ensures
        playback_queue(utterances).map_values(|line: Scheduled| (line.speaker, line.text))
            == spoken(utterances).map_values(
            |utterance: Utterance| (utterance.speaker, utterance.text),
        ),
    decreases utterances.len(),
{
    let of_line = |line: Scheduled| (line.speaker, line.text);
    let of_utterance = |utterance: Utterance| (utterance.speaker, utterance.text);
    if utterances.len() == 0 {
        reveal(Seq::filter);
        assert(spoken(utterances) =~= seq![]);
        assert(playback_queue(utterances).map_values(of_line) =~= spoken(utterances).map_values(
            of_utterance,
        ));
    } else {
        let before = utterances.drop_last();
        law_queue_holds_the_spoken_lines(before);
        lemma_spoken_push(before, utterances.last());
        assert(before.push(utterances.last()) =~= utterances);
        let lines = playback_queue(before).map_values(of_line);
        assert(lines == spoken(before).map_values(of_utterance));
        if trimmed(utterances.last().text).len() > 0 {
            assert(playback_queue(utterances).map_values(of_line) =~= lines.push(
                of_utterance(utterances.last()),
            ));
            assert(spoken(utterances).map_values(of_utterance) =~= lines.push(
                of_utterance(utterances.last()),
            ));
        }
    }
}

/// Each line of a playback queue lasts as long as its own text takes to say.
pub proof fn law_lines_last_as_long_as_their_texts_take(utterances: Seq<Utterance>)
    ensures
        forall|i: int|
            0 <= i < playback_queue(utterances).len() ==> (#[trigger] playback_queue(
                utterances,
            )[i]).duration == utterance_nanos(playback_queue(utterances)[i].text),
    decreases utterances.len(),
{
    if utterances.len() > 0 {
        let before = utterances.drop_last();
        law_lines_last_as_long_as_their_texts_take(before);
        crate::pace::law_durations_are_bounded(utterances.last().text);
        let queue = playback_queue(utterances);
        assert forall|i: int| 0 <= i < queue.len() implies (#[trigger] queue[i]).duration
            == utterance_nanos(queue[i].text) by {
            if i < playback_queue(before).len() {
                assert(queue[i] == playback_queue(before)[i]);
            }
        }
    }
}

/// What is played next does not depend on what comes later: more utterances leave the
/// lines of the queue as they are and add theirs behind them.
pub proof fn law_later_utterances_are_queued_behind(
    utterances: Seq<Utterance>,
    later: Seq<Utterance>,
)
    ensures
        playback_queue(utterances).len() <= playback_queue(utterances + later).len(),
        playback_queue(utterances + later).take(playback_queue(utterances).len() as int)
            == playback_queue(utterances),
    decreases later.len(),
{
    if later.len() == 0 {
        assert(utterances + later =~= utterances);
        assert(playback_queue(utterances).take(playback_queue(utterances).len() as int)
            =~= playback_queue(utterances));
    } else {
        law_later_utterances_are_queued_behind(utterances, later.drop_last());
        assert((utterances + later).drop_last() =~= utterances + later.drop_last());
        let n = playback_queue(utterances).len() as int;
        assert(playback_queue(utterances + later).take(n) =~= playback_queue(
            utterances + later.drop_last(),
        ).take(n));
    }
}

/// A playback that starts belongs to the session of its conversation, knows its
/// participants and the moment at which it started, and has nothing completed.
pub proof fn law_a_playback_starts_with_its_conversation(transcript: Transcript, now: u128)
    ensures
        started_playback(transcript, now).session_id == Some(transcript.session_id),
        started_playback(transcript, now).participants == transcript.participants,
        started_playback(transcript, now).started_at == Some(now),
        started_playback(transcript, now).queue.map_values(
            |line: Scheduled| (line.speaker, line.text),
        ) == spoken(transcript.utterances).map_values(
            |utterance: Utterance| (utterance.speaker, utterance.text),
        ),
        started_transcript(transcript, now).session_id == Some(transcript.session_id),
        started_transcript(transcript, now).started_at == Some(now),
        started_transcript(transcript, now).completed_at is None,
        started_transcript(transcript, now).phase
            == ConversationTranscriptPhase::ReplayingTranscript,
{
    law_queue_holds_the_spoken_lines(transcript.utterances);
}

/// The facts of exactly the utterances that say something are extracted, in order: each
/// command names the session, and carries an utterance with the index at which it stands.
pub proof fn law_extraction_commands_carry_their_utterances(transcript: Transcript)
    requires
        transcript.utterances.len() <= usize::MAX,
    ensures
        ({
            let commands = extraction_commands(transcript, transcript.utterances.len());
            &&& commands.map_values(
                |command: ExtractionCommand| command->ExtractFactFromUtterance_utterance,
            ) == spoken(transcript.utterances)
            &&& forall|k: int|
                0 <= k < commands.len() ==> {
                    let index = (
                    #[trigger] commands[k])->ExtractFactFromUtterance_utterance_index;
                    &&& commands[k]->ExtractFactFromUtterance_session_id == transcript.session_id
                    &&& index < transcript.utterances.len()
                    &&& commands[k]->ExtractFactFromUtterance_utterance
                        == transcript.utterances[index as int]
                    &&& has_prefix(
                        commands[k]->ExtractFactFromUtterance_request_id,
                        transcript.session_id,
                    )
                    &&& has_suffix(
                        commands[k]->ExtractFactFromUtterance_request_id,
                        decimal(index as nat),
                    )
                }
        }),
{
    lemma_extraction_commands(transcript, transcript.utterances.len());
    assert(transcript.utterances.take(transcript.utterances.len() as int)
        =~= transcript.utterances);
}

proof fn lemma_extraction_commands(transcript: Transcript, n: nat)
    requires
        n <= transcript.utterances.len() <= usize::MAX,
    ensures
        extraction_commands(transcript, n).map_values(
            |command: ExtractionCommand| command->ExtractFactFromUtterance_utterance,
        ) == spoken(transcript.utterances.take(n as int)),
        forall|k: int|
            0 <= k < extraction_commands(transcript, n).len() ==> {
                let command = #[trigger] extraction_commands(transcript, n)[k];
                let index = command->ExtractFactFromUtterance_utterance_index;
                &&& command->ExtractFactFromUtterance_session_id == transcript.session_id
                &&& index < n
                &&& command->ExtractFactFromUtterance_utterance
                    == transcript.utterances[index as int]
                &&& has_prefix(
                    command->ExtractFactFromUtterance_request_id,
                    transcript.session_id,
                )
                &&& has_suffix(
                    command->ExtractFactFromUtterance_request_id,
                    decimal(index as nat),
                )
            },
        forall|j: int, k: int|
            #![trigger extraction_commands(transcript, n)[j], extraction_commands(transcript, n)[k]]
            0 <= j < k < extraction_commands(transcript, n).len() ==> extraction_commands(
                transcript,
                n,
            )[j]->ExtractFactFromUtterance_utterance_index < extraction_commands(
                transcript,
                n,
            )[k]->ExtractFactFromUtterance_utterance_index,
        forall|k: int|
            0 <= k < extraction_commands(transcript, n).len() ==> {
                let command = #[trigger] extraction_commands(transcript, n)[k];
                command->ExtractFactFromUtterance_request_id == transcript.session_id
                    + ":extract:"@ + decimal(
                    command->ExtractFactFromUtterance_utterance_index as nat,
                )
            },
    decreases n,
{
    let of = |command: ExtractionCommand| command->ExtractFactFromUtterance_utterance;
    let commands = extraction_commands(transcript, n);
    if n == 0 {
        reveal(Seq::filter);
        assert(transcript.utterances.take(0) =~= seq![]);
        assert(commands.map_values(of) =~= spoken(transcript.utterances.take(0)));
    } else {
        let m = (n - 1) as nat;
        let before = extraction_commands(transcript, m);
        lemma_extraction_commands(transcript, m);
        law_ends_of_sums();
        lemma_spoken_push(transcript.utterances.take(m as int), transcript.utterances[m as int]);
        assert(transcript.utterances.take(n as int) =~= transcript.utterances.take(m as int).push(
            transcript.utterances[m as int],
        ));
        if trimmed(transcript.utterances[m as int].text).len() > 0 {
            assert(commands.map_values(of) =~= before.map_values(of).push(
                transcript.utterances[m as int],
            ));
            assert(commands =~= before.push(commands.last()));
        } else {
            assert(commands == before);
        }
        assert forall|k: int| 0 <= k < before.len() implies commands[k]
            == #[trigger] before[k] by {}
        assert(commands.len() > before.len()
            ==> commands.last()->ExtractFactFromUtterance_utterance_index == m);
        assert forall|k: int| 0 <= k < commands.len() implies {
            let command = #[trigger] commands[k];
            let index = command->ExtractFactFromUtterance_utterance_index;
            &&& command->ExtractFactFromUtterance_session_id == transcript.session_id
            &&& index < n
            &&& command->ExtractFactFromUtterance_utterance == transcript.utterances[index as int]
            &&& has_prefix(command->ExtractFactFromUtterance_request_id, transcript.session_id)
            &&& has_suffix(command->ExtractFactFromUtterance_request_id, decimal(index as nat))
        } by {
            if k < before.len() {
                assert(commands[k] == before[k]);
            }
        }
        assert forall|j: int, k: int|
            #![trigger commands[j], commands[k]]
            0 <= j < k < commands.len() implies commands[j]->ExtractFactFromUtterance_utterance_index
            < commands[k]->ExtractFactFromUtterance_utterance_index by {
            assert(commands[j] == before[j]);
            if k < before.len() {
                assert(commands[k] == before[k]);
            }
        }
        assert forall|k: int| 0 <= k < commands.len() implies {
            let command = #[trigger] commands[k];
            command->ExtractFactFromUtterance_request_id == transcript.session_id + ":extract:"@
                + decimal(command->ExtractFactFromUtterance_utterance_index as nat)
        } by {
            if k < before.len() {
                assert(commands[k] == before[k]);
            }
        }
    }
}

/// The facts of exactly the utterances that say something are stored, in order, for every
/// participant: the text of each command names its own utterance's speaker and ends with
/// what is said.
pub proof fn law_store_commands_carry_their_utterances(transcript: Transcript)
    ensures
        ({
            let commands = store_commands(transcript, transcript.utterances.len());
            let lines = spoken(transcript.utterances);
            &&& commands.len() == lines.len()
            &&& forall|k: int|
                0 <= k < commands.len() ==> {
                    &&& (#[trigger] commands[k])->StoreFactsFromPrompt_agents
                        == transcript.participants
                    &&& has_suffix(commands[k]->StoreFactsFromPrompt_text, lines[k].text)
                    &&& has_prefix(
                        commands[k]->StoreFactsFromPrompt_text,
                        "**"@ + lines[k].speaker,
                    )
                    &&& has_prefix(
                        commands[k]->StoreFactsFromPrompt_request_id,
                        transcript.session_id,
                    )
                }
        }),
{
    lemma_store_commands(transcript, transcript.utterances.len());
    assert(transcript.utterances.take(transcript.utterances.len() as int)
        =~= transcript.utterances);
}

proof fn lemma_store_commands(transcript: Transcript, n: nat)
    requires
        n <= transcript.utterances.len(),
    ensures
        ({
            let commands = store_commands(transcript, n);
            let lines = spoken(transcript.utterances.take(n as int));
            &&& commands.len() == lines.len()
            &&& forall|k: int|
                0 <= k < commands.len() ==> {
                    &&& (#[trigger] commands[k])->StoreFactsFromPrompt_agents
                        == transcript.participants
                    &&& has_suffix(commands[k]->StoreFactsFromPrompt_text, lines[k].text)
                    &&& has_prefix(
                        commands[k]->StoreFactsFromPrompt_text,
                        "**"@ + lines[k].speaker,
                    )
                    &&& has_prefix(
                        commands[k]->StoreFactsFromPrompt_request_id,
                        transcript.session_id,
                    )
                }
        }),
    decreases n,
{
    if n == 0 {
        reveal(Seq::filter);
        assert(transcript.utterances.take(0) =~= seq![]);
    } else {
        let m = (n - 1) as nat;
        lemma_store_commands(transcript, m);
        law_ends_of_sums();
        lemma_spoken_push(transcript.utterances.take(m as int), transcript.utterances[m as int]);
        assert(transcript.utterances.take(n as int) =~= transcript.utterances.take(m as int).push(
            transcript.utterances[m as int],
        ));
        let before = store_commands(transcript, m);
        let commands = store_commands(transcript, n);
        let lines = spoken(transcript.utterances.take(n as int));
        let utterance = transcript.utterances[m as int];
        assert(has_prefix(fact_store_prompt(utterance), "**"@ + utterance.speaker));
        assert(has_suffix(fact_store_prompt(utterance), utterance.text));
        assert forall|k: int| 0 <= k < commands.len() implies {
            &&& (#[trigger] commands[k])->StoreFactsFromPrompt_agents == transcript.participants
            &&& has_suffix(commands[k]->StoreFactsFromPrompt_text, lines[k].text)
            &&& has_prefix(commands[k]->StoreFactsFromPrompt_text, "**"@ + lines[k].speaker)
            &&& has_prefix(commands[k]->StoreFactsFromPrompt_request_id, transcript.session_id)
        } by {
            if k < before.len() {
                assert(commands[k] == before[k]);
            }
        }
    }
}

proof fn lemma_decimal_of_more(n: nat, m: nat)
    requires
        decimal(n) == decimal(m),
    ensures
        n == m,
    decreases n,
{
    assert(decimal(n).last() == digit((n % 10) as int));
    assert(decimal(m).last() == digit((m % 10) as int));
    assert(n % 10 == m % 10);
    if n < 10 || m < 10 {
        if n >= 10 {
            lemma_decimal_is_not_empty(n / 10);
        }
        if m >= 10 {
            lemma_decimal_is_not_empty(m / 10);
        }
    } else {
        assert(decimal(n).drop_last() =~= decimal(n / 10));
        assert(decimal(m).drop_last() =~= decimal(m / 10));
        lemma_decimal_of_more(n / 10, m / 10);
    }
}

proof fn lemma_decimal_is_not_empty(n: nat)
    ensures
        decimal(n).len() > 0,
    decreases n,
{
    if n >= 10 {
        lemma_decimal_is_not_empty(n / 10);
    }
}

/// Different numbers have different digits.
pub proof fn law_digits_tell_numbers_apart(n: nat, m: nat)
    ensures
        decimal(n) == decimal(m) <==> n == m,
{
    if decimal(n) == decimal(m) {
        lemma_decimal_of_more(n, m);
    }
}

/// No two extractions of a conversation have the same request id.
pub proof fn law_extraction_requests_are_told_apart(transcript: Transcript, j: int, k: int)
    requires
        transcript.utterances.len() <= usize::MAX,
        0 <= j < k < extraction_commands(transcript, transcript.utterances.len()).len(),
    ensures
        extraction_commands(
            transcript,
            transcript.utterances.len(),
        )[j]->ExtractFactFromUtterance_request_id != extraction_commands(
            transcript,
            transcript.utterances.len(),
        )[k]->ExtractFactFromUtterance_request_id,
{
    let commands = extraction_commands(transcript, transcript.utterances.len());
    lemma_extraction_commands(transcript, transcript.utterances.len());
    let front = transcript.session_id + ":extract:"@;
    let a = decimal(commands[j]->ExtractFactFromUtterance_utterance_index as nat);
    let b = decimal(commands[k]->ExtractFactFromUtterance_utterance_index as nat);
    law_digits_tell_numbers_apart(
        commands[j]->ExtractFactFromUtterance_utterance_index as nat,
        commands[k]->ExtractFactFromUtterance_utterance_index as nat,
    );
    if front + a == front + b {
        assert((front + a).skip(front.len() as int) =~= a);
        assert((front + b).skip(front.len() as int) =~= b);
    }
}

/// A round whose generation failed is complete, at the moment of the failure, plays
/// nothing, awaits nothing and stays complete; when it started is not touched.
pub proof fn law_failed_rounds_are_over(
    before: TranscriptState,
    session_id: Seq<char>,
    now: u128,
    later: u128,
)
    ensures
        failed_transcript(before, session_id, now).phase == ConversationTranscriptPhase::Complete,
        failed_transcript(before, session_id, now).session_id == Some(session_id),
        failed_transcript(before, session_id, now).completed_at == Some(now),
        failed_transcript(before, session_id, now).started_at == before.started_at,
        failed_playback(session_id).session_id == Some(session_id),
        due_now(failed_playback(session_id), later) == 0,
        failed_playback(session_id).queue.len() == 0,
        failed_playback(session_id).pending_fact_extraction_requests == 0,
        updated_transcript(
            failed_transcript(before, session_id, now),
            failed_playback(session_id),
            later,
        ).phase == ConversationTranscriptPhase::Complete,
{
}

/// The phase of a round follows its playback: it replays while lines are left, collects
/// facts while some are awaited, and then is complete, from that moment on. Its session
/// and its start stay, and a round without a playback is left alone.
pub proof fn law_phases_follow_the_playback(
    transcript: TranscriptState,
    playback: PlaybackState,
    now: u128,
)
    ensures
        ({
            let after = updated_transcript(transcript, playback, now);
            &&& after.session_id == transcript.session_id
            &&& after.started_at == transcript.started_at
            &&& playback.session_id is None ==> after == transcript
            &&& playback.session_id is Some ==> {
                &&& after.phase == ConversationTranscriptPhase::ReplayingTranscript
                    <==> playback.queue.len() > 0
                &&& after.phase == ConversationTranscriptPhase::CollectingFacts
                    <==> playback.queue.len() == 0 && playback.pending_fact_store_requests > 0
                &&& after.phase == ConversationTranscriptPhase::Complete
                    ==> after.completed_at == Some(now)
                &&& after.phase != ConversationTranscriptPhase::Complete
                    ==> after.completed_at == transcript.completed_at
            }
        }),
{
}

/// What is awaited and what was answered are together what was awaited before, as long as
/// no more answers come than are awaited; then nothing is awaited. Answers that come
/// apart count as those that come together.
pub proof fn law_each_answer_is_one_less_to_wait_for(awaited: usize, answers: nat, more: nat)
    ensures
        answers <= awaited ==> less(awaited, answers) + answers == awaited,
        answers >= awaited ==> less(awaited, answers) == 0,
        less(less(awaited, answers), more) == less(awaited, answers + more),
{
}

/// Facts that were stored are merged in for each agent of the event, and for no other; a
/// failure changes nobody's facts.
pub proof fn law_stored_facts_reach_the_ledger(
    ledger: Map<Seq<char>, Seq<Fact>>,
    events: Seq<StoreEvent>,
    event: StoreEvent,
    today: Option<i64>,
    agent: Seq<char>,
)
    requires
        event matches StoreEvent::FactsStored { request_id, agents, facts }
            ==> agents.no_duplicates(),
    ensures
        ({
            let before = facts_of(recorded_ledger(ledger, events, today), agent);
            let after = facts_of(recorded_ledger(ledger, events.push(event), today), agent);
            match event {
                StoreEvent::FactsStored { request_id, agents, facts } => after
                    == if agents.contains(agent) {
                    merged(before, facts, today)
                } else {
                    before
                },
                StoreEvent::FactStorageFailed { request_id, agents, reason } => after == before,
            }
        }),
        recorded_ledger(ledger, seq![], today) == ledger,
{
    assert(events.push(event).drop_last() =~= events);
    if let StoreEvent::FactsStored { request_id, agents, facts } = event {
        law_facts_are_attributed_to_each_agent(
            recorded_ledger(ledger, events, today),
            agents,
            facts,
            today,
            agent,
        );
    }
}

proof fn lemma_offsets_grow(queue: Seq<Scheduled>, i: int, j: int)
    requires
        follows_on(queue),
        0 <= i <= j < queue.len(),
    ensures
        queue[i].starts_after <= queue[j].starts_after,
    decreases j - i,
{
    if i < j {
        lemma_offsets_grow(queue, i, j - 1);
        assert(queue[j].starts_after == queue[j - 1].starts_after + queue[j - 1].duration);
    }
}

/// A line of a playback is due exactly when the time since the start has reached its
/// offset; before the start, and on a clock that ran backwards, no time has passed. A
/// playback that has not started has nothing due.
pub proof fn law_lines_are_due_at_their_offsets(playback: PlaybackState, now: u128, i: int)
    requires
        follows_on(playback.queue),
        0 <= i < playback.queue.len(),
    ensures
        match playback.started_at {
            Some(started_at) => i < due_now(playback, now) <==> started_at
                + playback.queue[i].starts_after <= now || playback.queue[i].starts_after == 0,
            None => due_now(playback, now) == 0,
        },
{
    if let Some(started_at) = playback.started_at {
        let elapsed = if now >= started_at {
            now - started_at
        } else {
            0
        };
        law_playing_takes_what_is_due(playback.queue, elapsed);
        let n = due_count(playback.queue, elapsed) as int;
        if n <= i {
            lemma_offsets_grow(playback.queue, n, i);
        }
    }
}

/// The report of an agent's facts names the agent, and has one line for each fact, which
/// shows its text, its importance and its expiry.
pub proof fn law_each_fact_is_reported(agent: Seq<char>, facts: Seq<Fact>)
    ensures
        ledger_lines(agent, facts).len() == facts.len() + 1,
        occurs(ledger_lines(agent, facts)[0], agent),
        has_suffix(ledger_lines(agent, facts)[0], decimal(facts.len())),
        forall|i: int|
            0 <= i < facts.len() ==> {
                let line = ledger_lines(agent, facts)[i + 1];
                &&& occurs(line, (#[trigger] facts[i]).fact)
                &&& occurs(line, facts[i].importance.rendered())
                &&& has_suffix(line, facts[i].expiry)
            },
{
    law_parts_stand_in_sums();
    law_ends_of_sums();
}

/// The counts of a text by which its duration is estimated are those of its pieces; a
/// word counts once whether it ends a text or is followed by white space.
pub proof fn law_counts_add_up(front: Seq<char>, back: Seq<char>)
    ensures
        comma_count(front + back) == comma_count(front) + comma_count(back),
        stop_count(front + back) == stop_count(front) + stop_count(back),
        front.len() == 0 || is_white_space(front.last()) || back.len() == 0 || is_white_space(
            back[0],
        ) ==> word_count(front + back) == word_count(front) + word_count(back),
        back.len() > 0 && front.len() > 0 && !is_white_space(front.last()) && !is_white_space(
            back[0],
        ) ==> word_count(front + back) + 1 == word_count(front) + word_count(back),
    decreases back.len(),
{
    if back.len() == 0 {
        assert(front + back =~= front);
    } else {
        let shorter = back.drop_last();
        law_counts_add_up(front, shorter);
        assert((front + back).drop_last() =~= front + shorter);
        assert((front + back).last() == back.last());
        let n = front.len() + back.len() - 1;
        if back.len() == 1 {
            assert(shorter.len() == 0);
            assert(word_count(shorter) == 0);
        } else {
            assert((front + back)[n - 1] == back[back.len() - 2]);
            assert(shorter[0] == back[0]);
        }
    }
}

/// A text of one character is a comma, an end of a sentence, a word or none of these.
pub proof fn law_counts_of_one_character(c: char)
    ensures
        comma_count(seq![c]) == if c == ',' {
            1nat
        } else {
            0nat
        },
        stop_count(seq![c]) == if c == '.' || c == '!' || c == '?' {
            1nat
        } else {
            0nat
        },
        word_count(seq![c]) == if is_white_space(c) {
            0nat
        } else {
            1nat
        },
{
    assert(seq![c].drop_last() =~= seq![]);
    assert(comma_count(Seq::<char>::empty()) == 0);
    assert(stop_count(Seq::<char>::empty()) == 0);
    assert(word_count(Seq::<char>::empty()) == 0);
    assert(seq![c].drop_last() == Seq::<char>::empty());
}

} // verus!
