//! What holds of the history of a thread whatever is appended to it.

use crate::fact_laws::{
    all_numbers, law_kept_facts_are_the_highest_ranked, law_only_expired_facts_leave,
    law_ranking_keeps_the_facts, law_trimming_is_idempotent,
};
use crate::facts::{is_expired, merged, ranked, topmost, unexpired};
use crate::history::{
    called_tools, compacted, conversation_text, entry_line, entry_lines, is_source, pending_lines,
    pending_text, recent, refresh_begun, refresh_completed, unprocessed, with_entry, with_turn,
    without_expired, MAX_RECENT_ENTRIES,
};
use crate::text::{has_prefix, has_suffix, joined, occurs};
use crate::text_laws::{
    law_each_part_stands_in_the_joined_text, law_ends_of_sums,
    law_parts_of_parts_stand_in_the_whole, law_parts_stand_in_sums,
};
use crate::types::{Entry, Fact, LlmConversationEntryKind, Thread, ToolCall};
use vstd::prelude::*;

verus! {

/// Whether the sequence numbers of the entries of a thread rise, and the next one is
/// above them all.
pub open spec fn in_sequence(thread: Thread) -> bool {
    &&& forall|i: int, j: int|
        #![trigger thread.entries[i], thread.entries[j]]
        0 <= i < j < thread.entries.len() ==> thread.entries[i].sequence
            < thread.entries[j].sequence
    &&& forall|i: int|
        0 <= i < thread.entries.len() ==> (#[trigger] thread.entries[i]).sequence
            < thread.next_entry_sequence
}

/// An entry that is appended takes a sequence number above all others, and the next one
/// is above that.
pub proof fn law_appending_advances_the_sequence(
    thread: Thread,
    speaker: Seq<char>,
    text: Seq<char>,
    kind: LlmConversationEntryKind,
    extractable: bool,
)
    requires
        in_sequence(thread),
        thread.next_entry_sequence < u64::MAX,
    ensures
        in_sequence(with_entry(thread, speaker, text, kind, extractable)),
        with_entry(thread, speaker, text, kind, extractable).entries.last().sequence
            == thread.next_entry_sequence,
{
    let after = with_entry(thread, speaker, text, kind, extractable);
    assert forall|i: int, j: int|
        #![trigger after.entries[i], after.entries[j]]
        0 <= i < j < after.entries.len() implies after.entries[i].sequence
        < after.entries[j].sequence by {
        assert(after.entries[i] == thread.entries[i]);
        if j < thread.entries.len() {
            assert(after.entries[j] == thread.entries[j]);
        }
    }
    assert forall|i: int| 0 <= i < after.entries.len() implies (#[trigger]
    after.entries[i]).sequence < after.next_entry_sequence by {
        if i < thread.entries.len() {
            assert(after.entries[i] == thread.entries[i]);
        }
    }
}

/// Compacting a thread keeps its latest entries as they are, no more than the limit, and
/// keeps them in sequence.
pub proof fn law_compacting_keeps_the_latest_entries(thread: Thread, today: Option<i64>)
    ensures
        compacted(thread, today).entries.len() <= MAX_RECENT_ENTRIES,
        compacted(thread, today).entries.len() == MAX_RECENT_ENTRIES || compacted(
            thread,
            today,
        ).entries == thread.entries,
        compacted(thread, today).entries == thread.entries.skip(
            thread.entries.len() - compacted(thread, today).entries.len(),
        ),
        compacted(thread, today).next_entry_sequence == thread.next_entry_sequence,
        in_sequence(thread) ==> in_sequence(compacted(thread, today)),
{
    let after = compacted(thread, today);
    let cut = thread.entries.len() - after.entries.len();
    assert(after.entries =~= thread.entries.skip(cut));
    if in_sequence(thread) {
        assert forall|i: int, j: int|
            #![trigger after.entries[i], after.entries[j]]
            0 <= i < j < after.entries.len() implies after.entries[i].sequence
            < after.entries[j].sequence by {
            assert(thread.entries[i + cut].sequence < thread.entries[j + cut].sequence);
        }
        assert forall|i: int| 0 <= i < after.entries.len() implies (#[trigger]
        after.entries[i]).sequence < after.next_entry_sequence by {
            assert(thread.entries[i + cut].sequence < thread.next_entry_sequence);
        }
    }
}

proof fn lemma_all_unexpired(facts: Seq<Fact>, today: Option<i64>)
    requires
        forall|i: int| 0 <= i < facts.len() ==> !is_expired(#[trigger] facts[i], today),
    ensures
        unexpired(facts, today) == facts,
    decreases facts.len(),
{
    reveal(Seq::filter);
    if facts.len() > 0 {
        let shorter = facts.drop_last();
        assert forall|i: int| 0 <= i < shorter.len() implies !is_expired(
            #[trigger] shorter[i],
            today,
        ) by {
            assert(!is_expired(facts[i], today));
        }
        lemma_all_unexpired(shorter, today);
        assert(!is_expired(facts[facts.len() - 1], today));
        assert(unexpired(facts, today) =~= facts);
    }
}

/// Compacting a thread a second time on the same day changes nothing.
pub proof fn law_compacting_is_idempotent(thread: Thread, today: Option<i64>)
    requires
        all_numbers(thread.facts),
    ensures
        compacted(compacted(thread, today), today) == compacted(thread, today),
{
    broadcast use vstd::seq_lib::group_to_multiset_ensures;

    let alive = unexpired(thread.facts, today);
    law_only_expired_facts_leave(thread.facts, today);
    assert forall|i: int| 0 <= i < alive.len() implies !(#[trigger]
    alive[i]).importance.is_nan() by {
        assert(alive.contains(alive[i]));
        let q = choose|q: int| 0 <= q < thread.facts.len() && thread.facts[q] == alive[i];
        assert(!thread.facts[q].importance.is_nan());
    }
    let kept = topmost(alive);
    law_ranking_keeps_the_facts(alive);
    law_kept_facts_are_the_highest_ranked(alive);
    assert forall|i: int| 0 <= i < kept.len() implies !is_expired(#[trigger] kept[i], today) by {
        assert(ranked(alive)[i] == kept[i]);
        assert(ranked(alive).contains(kept[i]));
        assert(ranked(alive).to_multiset().count(kept[i]) > 0);
        assert(alive.contains(kept[i]));
    }
    lemma_all_unexpired(kept, today);
    law_trimming_is_idempotent(alive);
    let once = compacted(thread, today);
    let twice = compacted(once, today);
    assert(twice.facts == once.facts);
    assert(twice.entries == once.entries);
}

proof fn lemma_no_sources(entries: Seq<Entry>)
    ensures
        entries.filter(|entry: Entry| is_source(entry)).len() == 0 <==> (forall|i: int|
            0 <= i < entries.len() ==> !is_source(#[trigger] entries[i])),
    decreases entries.len(),
{
    reveal(Seq::filter);
    if entries.len() > 0 {
        let shorter = entries.drop_last();
        lemma_no_sources(shorter);
        if entries.filter(|entry: Entry| is_source(entry)).len() == 0 {
            assert forall|i: int| 0 <= i < entries.len() implies !is_source(
                #[trigger] entries[i],
            ) by {
                if i < shorter.len() {
                    assert(!is_source(shorter[i]));
                }
            }
        }
        if forall|i: int| 0 <= i < entries.len() ==> !is_source(#[trigger] entries[i]) {
            assert forall|i: int| 0 <= i < shorter.len() implies !is_source(
                #[trigger] shorter[i],
            ) by {
                assert(!is_source(entries[i]));
            }
            assert(!is_source(entries[entries.len() - 1]));
        }
    }
}

/// Facts are to be drawn from a thread exactly if it has an entry that was not
/// processed, was said by a participant, and is marked for it.
pub proof fn law_only_new_extractable_chat_is_pending(thread: Thread)
    ensures
        pending_text(thread) is Some <==> exists|i: int|
            thread.processed_entry_count <= i < thread.entries.len() && is_source(
                #[trigger] thread.entries[i],
            ),
{
    let rest = unprocessed(thread);
    lemma_no_sources(rest);
    let done = thread.processed_entry_count as int;
    if pending_text(thread) is Some {
        let k = choose|k: int| 0 <= k < rest.len() && is_source(#[trigger] rest[k]);
        assert(is_source(thread.entries[k + done]));
    }
    if exists|i: int| done <= i < thread.entries.len() && is_source(#[trigger] thread.entries[i]) {
        let i = choose|i: int|
            done <= i < thread.entries.len() && is_source(#[trigger] thread.entries[i]);
        assert(is_source(rest[i - done]));
    }
}

/// After a refresh nothing is left to draw facts from.
pub proof fn law_nothing_is_pending_after_a_refresh(
    thread: Thread,
    facts: Seq<Fact>,
    today: Option<i64>,
)
    requires
        thread.entries.len() <= usize::MAX,
    ensures
        pending_text(refresh_completed(thread, facts, today)) is None,
        pending_text(thread) is None ==> pending_text(refresh_begun(thread, today)) is None,
{
    law_only_new_extractable_chat_is_pending(refresh_completed(thread, facts, today));
    let alive = without_expired(thread, today);
    law_only_new_extractable_chat_is_pending(alive);
    law_only_new_extractable_chat_is_pending(recent(alive));
    if pending_text(thread) is None {
        assert(pending_text(alive) is None);
        let after = recent(alive);
        let cut = alive.entries.len() - after.entries.len();
        assert forall|i: int|
            after.processed_entry_count <= i < after.entries.len() implies !is_source(
            #[trigger] after.entries[i],
        ) by {
            assert(after.entries[i] == alive.entries[i + cut]);
        }
    }
}

proof fn lemma_entry_is_no_source(
    thread: Thread,
    speaker: Seq<char>,
    text: Seq<char>,
    kind: LlmConversationEntryKind,
    extractable: bool,
)
    requires
        thread.processed_entry_count <= thread.entries.len(),
        !extractable || kind != LlmConversationEntryKind::Chat,
    ensures
        pending_lines(with_entry(thread, speaker, text, kind, extractable)) == pending_lines(
            thread,
        ),
{
    reveal(Seq::filter);
    let after = with_entry(thread, speaker, text, kind, extractable);
    assert(unprocessed(after).drop_last() =~= unprocessed(thread));
    assert(unprocessed(after).last() == after.entries.last());
}

/// A prompt and what came back add nothing to draw facts from.
pub proof fn law_turns_are_not_drawn_from(
    thread: Thread,
    agent: Seq<char>,
    prompt: Seq<char>,
    response: Seq<char>,
    calls: Seq<ToolCall>,
)
    requires
        thread.processed_entry_count <= thread.entries.len(),
    ensures
        pending_text(with_turn(thread, agent, prompt, response, calls)) == pending_text(thread),
{
    let asked = with_entry(thread, "user"@, prompt, LlmConversationEntryKind::Prompt, false);
    lemma_entry_is_no_source(
        thread,
        "user"@,
        prompt,
        LlmConversationEntryKind::Prompt,
        false,
    );
    let after = with_turn(thread, agent, prompt, response, calls);
    let last = after.entries.last();
    assert(after == with_entry(asked, last.speaker, last.text, last.kind, false));
    lemma_entry_is_no_source(asked, last.speaker, last.text, last.kind, false);
}

/// An entry that is appended stands last, with the speaker, the text, the kind and the mark
/// that were given; what stood before it stays, and so do the facts.
pub proof fn law_appending_keeps_what_was_there(
    thread: Thread,
    speaker: Seq<char>,
    text: Seq<char>,
    kind: LlmConversationEntryKind,
    extractable: bool,
)
    ensures
        ({
            let after = with_entry(thread, speaker, text, kind, extractable);
            &&& after.entries.len() == thread.entries.len() + 1
            &&& after.entries.drop_last() == thread.entries
            &&& after.entries.last().speaker == speaker
            &&& after.entries.last().text == text
            &&& after.entries.last().kind == kind
            &&& after.entries.last().extractable == extractable
            &&& after.facts == thread.facts
            &&& after.processed_entry_count == thread.processed_entry_count
        }),
{
    assert(with_entry(thread, speaker, text, kind, extractable).entries.drop_last()
        =~= thread.entries);
}

/// A turn adds the prompt and what came back, in that order: the agent's response as it
/// is, or, where tools were called, the name of each of them.
pub proof fn law_turns_are_kept_as_they_were(
    thread: Thread,
    agent: Seq<char>,
    prompt: Seq<char>,
    response: Seq<char>,
    calls: Seq<ToolCall>,
)
    ensures
        ({
            let after = with_turn(thread, agent, prompt, response, calls);
            let n = thread.entries.len() as int;
            &&& after.entries.len() == n + 2
            &&& after.entries.take(n) == thread.entries
            &&& after.entries[n].text == prompt
            &&& after.entries[n].kind == LlmConversationEntryKind::Prompt
            &&& after.entries[n].speaker == "user"@
            &&& after.entries[n + 1].speaker == agent
            &&& calls.len() == 0 ==> after.entries[n + 1].text == response && after.entries[n
                + 1].kind == LlmConversationEntryKind::Response
            &&& calls.len() > 0 ==> after.entries[n + 1].kind
                == LlmConversationEntryKind::ToolCall
            &&& forall|i: int|
                0 <= i < calls.len() ==> occurs(
                    after.entries[n + 1].text,
                    (#[trigger] calls[i]).tool,
                )
            &&& after.facts == thread.facts
        }),
{
    let after = with_turn(thread, agent, prompt, response, calls);
    let n = thread.entries.len() as int;
    assert(after.entries.take(n) =~= thread.entries);
    if calls.len() > 0 {
        law_parts_stand_in_sums();
        let names = joined(called_tools(calls), ", "@);
        assert forall|i: int| 0 <= i < calls.len() implies occurs(
            after.entries[n + 1].text,
            (#[trigger] calls[i]).tool,
        ) by {
            law_each_part_stands_in_the_joined_text(called_tools(calls), ", "@, i);
            law_parts_of_parts_stand_in_the_whole(
                "tool calls: "@ + names,
                names,
                called_tools(calls)[i],
            );
        }
    }
}

/// The line of an entry ends with its text, and names its speaker where a participant
/// speaks or acts.
pub proof fn law_lines_show_their_entries(entry: Entry)
    ensures
        has_suffix(entry_line(entry), entry.text),
        entry.kind == LlmConversationEntryKind::Chat ==> has_prefix(
            entry_line(entry),
            "**"@ + entry.speaker,
        ),
        entry.kind == LlmConversationEntryKind::Response ==> has_prefix(
            entry_line(entry),
            "[response:"@ + entry.speaker,
        ),
        entry.kind == LlmConversationEntryKind::ToolCall ==> has_prefix(
            entry_line(entry),
            "[tools:"@ + entry.speaker,
        ),
        entry.kind == LlmConversationEntryKind::Prompt ==> has_prefix(
            entry_line(entry),
            "[prompt]"@,
        ),
        entry.kind == LlmConversationEntryKind::Control ==> has_prefix(
            entry_line(entry),
            "[system]"@,
        ),
{
    law_ends_of_sums();
    assert("[prompt] "@ =~= "[prompt]"@ + " "@) by {
        reveal_strlit("[prompt] ");
        reveal_strlit("[prompt]");
        reveal_strlit(" ");
    }
    assert("[system] "@ =~= "[system]"@ + " "@) by {
        reveal_strlit("[system] ");
        reveal_strlit("[system]");
        reveal_strlit(" ");
    }
}

/// The history in a prompt holds the line of every entry, and an entry that is appended
/// adds its line at the end and changes nothing before it.
pub proof fn law_the_whole_history_is_shown(
    thread: Thread,
    speaker: Seq<char>,
    text: Seq<char>,
    kind: LlmConversationEntryKind,
    extractable: bool,
)
    ensures
        forall|i: int|
            0 <= i < thread.entries.len() ==> occurs(
                conversation_text(thread),
                entry_line(#[trigger] thread.entries[i]),
            ),
        ({
            let after = with_entry(thread, speaker, text, kind, extractable);
            let line = entry_line(after.entries.last());
            conversation_text(after) == if thread.entries.len() == 0 {
                line
            } else {
                conversation_text(thread) + "\n"@ + line
            }
        }),
{
    let lines = entry_lines(thread.entries);
    assert forall|i: int| 0 <= i < thread.entries.len() implies occurs(
        conversation_text(thread),
        entry_line(#[trigger] thread.entries[i]),
    ) by {
        law_each_part_stands_in_the_joined_text(lines, "\n"@, i);
        assert(lines[i] == entry_line(thread.entries[i]));
    }
    let after = with_entry(thread, speaker, text, kind, extractable);
    assert(entry_lines(after.entries).drop_last() =~= lines);
}

/// Something that is said and marked for it adds its line to what facts are to be drawn
/// from, behind the others; no other entry adds anything.
pub proof fn law_marked_chat_is_drawn_from(
    thread: Thread,
    speaker: Seq<char>,
    text: Seq<char>,
    kind: LlmConversationEntryKind,
    extractable: bool,
)
    requires
        thread.processed_entry_count <= thread.entries.len(),
    ensures
        pending_lines(with_entry(thread, speaker, text, kind, extractable)) == if extractable
            && kind == LlmConversationEntryKind::Chat {
            pending_lines(thread).push("**"@ + speaker + "**: "@ + text)
        } else {
            pending_lines(thread)
        },
{
    let after = with_entry(thread, speaker, text, kind, extractable);
    if extractable && kind == LlmConversationEntryKind::Chat {
        reveal(Seq::filter);
        let fresh = unprocessed(after);
        let source = |entry: Entry| is_source(entry);
        assert(fresh =~= unprocessed(thread).push(after.entries.last()));
        assert(fresh.drop_last() =~= unprocessed(thread));
        assert(fresh.filter(source) =~= unprocessed(thread).filter(source).push(
            after.entries.last(),
        ));
        assert(pending_lines(after) =~= pending_lines(thread).push(
            "**"@ + speaker + "**: "@ + text,
        ));
    } else {
        lemma_entry_is_no_source(thread, speaker, text, kind, extractable);
    }
}

/// The text that facts are drawn from holds every line that they are to be drawn from.
pub proof fn law_all_pending_lines_are_drawn_from(thread: Thread)
    ensures
        pending_lines(thread).len() > 0 ==> pending_text(thread) is Some,
        pending_text(thread) matches Some(text) ==> forall|i: int|
            0 <= i < pending_lines(thread).len() ==> occurs(
                text,
                #[trigger] pending_lines(thread)[i],
            ),
{
    if pending_text(thread) is Some {
        assert forall|i: int| 0 <= i < pending_lines(thread).len() implies occurs(
            pending_text(thread)->0,
            #[trigger] pending_lines(thread)[i],
        ) by {
            law_each_part_stands_in_the_joined_text(pending_lines(thread), "\n"@, i);
        }
    }
}

/// A refresh stores the facts that were drawn by merging them into those of the thread;
/// of the entries the latest stay as they are, and the sequence goes on from where it was.
pub proof fn law_refreshes_store_what_was_drawn(
    thread: Thread,
    facts: Seq<Fact>,
    today: Option<i64>,
)
    ensures
        ({
            let after = refresh_completed(thread, facts, today);
            &&& after.facts == merged(thread.facts, facts, today)
            &&& after.entries.len() == if thread.entries.len() < MAX_RECENT_ENTRIES {
                thread.entries.len()
            } else {
                MAX_RECENT_ENTRIES as nat
            }
            &&& after.entries == thread.entries.skip(thread.entries.len() - after.entries.len())
            &&& after.next_entry_sequence == thread.next_entry_sequence
        }),
{
    assert(thread.entries.skip(0) =~= thread.entries);
}

/// Starting a refresh drops expired facts and, where nothing is to be drawn from, older
/// entries; nothing that facts are to be drawn from is lost.
pub proof fn law_starting_a_refresh_loses_nothing_pending(thread: Thread, today: Option<i64>)
    ensures
        ({
            let after = refresh_begun(thread, today);
            &&& after.facts == unexpired(thread.facts, today)
            &&& pending_text(thread) is Some ==> after.entries == thread.entries && pending_text(
                after,
            ) == pending_text(thread)
            &&& after.entries == thread.entries.skip(thread.entries.len() - after.entries.len())
            &&& after.next_entry_sequence == thread.next_entry_sequence
        }),
{
    assert(thread.entries.skip(0) =~= thread.entries);
    assert(unprocessed(without_expired(thread, today)) == unprocessed(thread));
}

/// Expiring the facts of a thread leaves its history alone.
pub proof fn law_expiring_leaves_the_history_alone(thread: Thread, today: Option<i64>)
    ensures
        without_expired(thread, today).entries == thread.entries,
        without_expired(thread, today).processed_entry_count == thread.processed_entry_count,
        without_expired(thread, today).next_entry_sequence == thread.next_entry_sequence,
        without_expired(thread, today).facts == unexpired(thread.facts, today),
{
}

/// Compacting a thread keeps the highest-ranked of the facts that have not expired, and,
/// of the entries that facts are still to be drawn from, those that stay.
pub proof fn law_compacting_keeps_what_counts(thread: Thread, today: Option<i64>)
    requires
        thread.processed_entry_count <= thread.entries.len(),
    ensures
        compacted(thread, today).facts == topmost(unexpired(thread.facts, today)),
        unprocessed(compacted(thread, today)) == if thread.entries.len() > MAX_RECENT_ENTRIES
            && thread.processed_entry_count < thread.entries.len() - MAX_RECENT_ENTRIES {
            compacted(thread, today).entries
        } else {
            unprocessed(thread)
        },
{
    let after = compacted(thread, today);
    if thread.entries.len() > MAX_RECENT_ENTRIES {
        assert(unprocessed(after) =~= if thread.processed_entry_count < thread.entries.len()
            - MAX_RECENT_ENTRIES {
            after.entries
        } else {
            unprocessed(thread)
        });
    }
}

} // verus!
