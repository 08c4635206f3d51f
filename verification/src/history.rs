//! The history of a conversation thread: what is appended to it, how it is written into
//! a prompt, and how facts are drawn from it.

use crate::calendar::{current_utc_days_since_epoch, day_at};
use crate::facts::{
    merge_conversation_facts_on, merged, prune_expired_facts_on, topmost, trim_facts, unexpired,
};
use crate::text::{join, joined};
use crate::types::{
    Entry, LlmConversationEntry, LlmConversationEntryKind, LlmConversationFact,
    LlmConversationState, LlmToolCall, Thread, ToolCall,
};
use vstd::prelude::*;

verus! {

/// How many entries of a thread are kept.
pub const MAX_RECENT_ENTRIES: usize = 12;

/// A thread with one more entry, which takes the next sequence number.
pub open spec fn with_entry(
    thread: Thread,
    speaker: Seq<char>,
    text: Seq<char>,
    kind: LlmConversationEntryKind,
    extractable: bool,
) -> Thread {
    Thread {
        entries: thread.entries.push(
            Entry { speaker, text, kind, extractable, sequence: thread.next_entry_sequence },
        ),
        next_entry_sequence: if thread.next_entry_sequence == u64::MAX {
            0
        } else {
            (thread.next_entry_sequence + 1) as u64
        },
        ..thread
    }
}

fn push_entry(
    conversation: &mut LlmConversationState,
    speaker: String,
    text: String,
    kind: LlmConversationEntryKind,
    extractable: bool,
)
    ensures
        final(conversation).deep_view() == with_entry(
            old(conversation).deep_view(),
            speaker@,
            text@,
            kind,
            extractable,
        ),
{
    let ghost before = conversation.deep_view();
    let sequence: u64 = conversation.next_entry_sequence;
    conversation.next_entry_sequence = conversation.next_entry_sequence.wrapping_add(1);
    let entry = LlmConversationEntry { speaker, text, kind, extractable, sequence };
    conversation.entries.push(entry);
    assert(conversation.entries.deep_view() =~= before.entries.push(entry.deep_view()));
}

/// The names of the tools that are called.
pub open spec fn called_tools(calls: Seq<ToolCall>) -> Seq<Seq<char>> {
    Seq::new(calls.len(), |i: int| calls[i].tool)
}

/// A thread with a prompt and what came back: the response, or the names of the tools
/// that were called.
pub open spec fn with_turn(
    thread: Thread,
    agent: Seq<char>,
    prompt: Seq<char>,
    response: Seq<char>,
    calls: Seq<ToolCall>,
) -> Thread {
    let asked = with_entry(thread, "user"@, prompt, LlmConversationEntryKind::Prompt, false);
    if calls.len() == 0 {
        with_entry(asked, agent, response, LlmConversationEntryKind::Response, false)
    } else {
        with_entry(
            asked,
            agent,
            "tool calls: "@ + joined(called_tools(calls), ", "@),
            LlmConversationEntryKind::ToolCall,
            false,
        )
    }
}

/// The names of the tools that are called, with commas between them.
pub fn tool_names(tool_calls: &[LlmToolCall]) -> (r: String)
    ensures
        r@ == joined(called_tools(tool_calls.deep_view()), ", "@),
{
    let mut names: Vec<String> = Vec::new();
    let mut i: usize = 0;
    while i < tool_calls.len()
        invariant
            i <= tool_calls.len(),
            names.deep_view() == called_tools(tool_calls.deep_view()).take(i as int),
        decreases tool_calls.len() - i,
    {
        let ghost before = names.deep_view();
        let name = tool_calls[i].tool.clone();
        names.push(name);
        assert(names.deep_view() =~= before.push(name@));
        assert(names.deep_view() =~= called_tools(tool_calls.deep_view()).take(i + 1));
        i = i + 1;
    }
    assert(names.deep_view() =~= called_tools(tool_calls.deep_view()));
    join(names.as_slice(), ", ")
}

/// Appends a prompt and what came back.
pub fn append_conversation_turn(
    conversation: &mut LlmConversationState,
    agent: &str,
    prompt: &str,
    response: &str,
    tool_calls: &[LlmToolCall],
)
    ensures
        final(conversation).deep_view() == with_turn(
            old(conversation).deep_view(),
            agent@,
            prompt@,
            response@,
            tool_calls.deep_view(),
        ),
{
    push_entry(
        conversation,
        "user".to_string(),
        prompt.to_string(),
        LlmConversationEntryKind::Prompt,
        false,
    );
    assert(tool_calls.deep_view().len() == tool_calls.len());
    if tool_calls.len() == 0 {
        push_entry(
            conversation,
            agent.to_string(),
            response.to_string(),
            LlmConversationEntryKind::Response,
            false,
        );
    } else {
        let mut text = "tool calls: ".to_string();
        text.append(tool_names(tool_calls).as_str());
        push_entry(
            conversation,
            agent.to_string(),
            text,
            LlmConversationEntryKind::ToolCall,
            false,
        );
    }
}

/// Appends something that was said.
pub fn append_conversation_chat(
    conversation: &mut LlmConversationState,
    speaker: String,
    message: String,
    extractable: bool,
)
    ensures
        final(conversation).deep_view() == with_entry(
            old(conversation).deep_view(),
            speaker@,
            message@,
            LlmConversationEntryKind::Chat,
            extractable,
        ),
{
    push_entry(conversation, speaker, message, LlmConversationEntryKind::Chat, extractable);
}

/// Appends a notice that no participant said.
pub fn append_conversation_control(conversation: &mut LlmConversationState, message: String)
    ensures
        final(conversation).deep_view() == with_entry(
            old(conversation).deep_view(),
            "system"@,
            message@,
            LlmConversationEntryKind::Control,
            false,
        ),
{
    push_entry(
        conversation,
        "system".to_string(),
        message,
        LlmConversationEntryKind::Control,
        false,
    );
}

/// The line that an entry is written as.
pub open spec fn entry_line(entry: Entry) -> Seq<char> {
    match entry.kind {
        LlmConversationEntryKind::Chat => "**"@ + entry.speaker + "**: "@ + entry.text,
        LlmConversationEntryKind::Control => "[system] "@ + entry.text,
        LlmConversationEntryKind::Prompt => "[prompt] "@ + entry.text,
        LlmConversationEntryKind::Response => "[response:"@ + entry.speaker + "] "@ + entry.text,
        LlmConversationEntryKind::ToolCall => "[tools:"@ + entry.speaker + "] "@ + entry.text,
    }
}

/// The line that an entry is written as.
pub fn render_conversation_entry(entry: &LlmConversationEntry) -> (r: String)
    ensures
        r@ == entry_line(entry.deep_view()),
{
    match entry.kind {
        LlmConversationEntryKind::Chat => {
            let mut line = "**".to_string();
            line.append(entry.speaker.as_str());
            line.append("**: ");
            line.append(entry.text.as_str());
            line
        },
        LlmConversationEntryKind::Control => {
            let mut line = "[system] ".to_string();
            line.append(entry.text.as_str());
            line
        },
        LlmConversationEntryKind::Prompt => {
            let mut line = "[prompt] ".to_string();
            line.append(entry.text.as_str());
            line
        },
        LlmConversationEntryKind::Response => {
            let mut line = "[response:".to_string();
            line.append(entry.speaker.as_str());
            line.append("] ");
            line.append(entry.text.as_str());
            line
        },
        LlmConversationEntryKind::ToolCall => {
            let mut line = "[tools:".to_string();
            line.append(entry.speaker.as_str());
            line.append("] ");
            line.append(entry.text.as_str());
            line
        },
    }
}

/// The lines that entries are written as.
pub open spec fn entry_lines(entries: Seq<Entry>) -> Seq<Seq<char>> {
    Seq::new(entries.len(), |i: int| entry_line(entries[i]))
}

/// The history of a thread as it stands in a prompt.
pub open spec fn conversation_text(thread: Thread) -> Seq<char> {
    if thread.entries.len() == 0 {
        "No conversation history is active for this request."@
    } else {
        joined(entry_lines(thread.entries), "\n"@)
    }
}

/// Writes the history of a thread as it stands in a prompt.
pub fn format_conversation_context(conversation: &LlmConversationState) -> (r: String)
    ensures
        r@ == conversation_text(conversation.deep_view()),
{
    let ghost entries = conversation.deep_view().entries;
    assert(entries.len() == conversation.entries.len());
    if conversation.entries.len() == 0 {
        return "No conversation history is active for this request.".to_string();
    }
    let mut lines: Vec<String> = Vec::new();
    let mut i: usize = 0;
    while i < conversation.entries.len()
        invariant
            i <= conversation.entries.len(),
            entries == conversation.entries.deep_view(),
            lines.deep_view() == entry_lines(entries).take(i as int),
        decreases conversation.entries.len() - i,
    {
        let ghost before = lines.deep_view();
        let line = render_conversation_entry(&conversation.entries[i]);
        lines.push(line);
        assert(lines.deep_view() =~= before.push(line@));
        assert(lines.deep_view() =~= entry_lines(entries).take(i + 1));
        i = i + 1;
    }
    assert(lines.deep_view() =~= entry_lines(entries));
    join(lines.as_slice(), "\n")
}

/// Whether facts are drawn from an entry.
pub open spec fn is_source(entry: Entry) -> bool {
    entry.extractable && entry.kind == LlmConversationEntryKind::Chat
}

/// The entries of a thread that no facts were drawn from yet.
pub open spec fn unprocessed(thread: Thread) -> Seq<Entry> {
    if thread.processed_entry_count <= thread.entries.len() {
        thread.entries.skip(thread.processed_entry_count as int)
    } else {
        seq![]
    }
}

/// The lines that facts are to be drawn from: those of the entries that were not
/// processed and that facts are drawn from.
pub open spec fn pending_lines(thread: Thread) -> Seq<Seq<char>> {
    entry_lines(unprocessed(thread).filter(|entry: Entry| is_source(entry)))
}

/// The text that facts are to be drawn from, if there is any.
pub open spec fn pending_text(thread: Thread) -> Option<Seq<char>> {
    if pending_lines(thread).len() == 0 {
        None
    } else {
        Some(joined(pending_lines(thread), "\n"@))
    }
}

/// The text that facts are to be drawn from, if there is any.
pub fn pending_fact_extraction_input(conversation: &LlmConversationState) -> (r: Option<String>)
    ensures
        r.deep_view() == pending_text(conversation.deep_view()),
{
    let ghost thread = conversation.deep_view();
    let ghost rest = unprocessed(thread);
    let ghost source = |entry: Entry| is_source(entry);
    let mut lines: Vec<String> = Vec::new();
    let mut i: usize = conversation.processed_entry_count;
    let ghost mut read: int = 0;
    proof {
        reveal(Seq::filter);
        assert(rest.take(0) =~= seq![]);
        assert(lines.deep_view() =~= entry_lines(rest.take(0).filter(source)));
    }
    while i < conversation.entries.len()
        invariant
            thread == conversation.deep_view(),
            source == (|entry: Entry| is_source(entry)),
            rest == unprocessed(thread),
            i == thread.processed_entry_count + read,
            0 <= read,
            read <= rest.len(),
            thread.processed_entry_count <= thread.entries.len() ==> i <= thread.entries.len(),
            lines.deep_view() == entry_lines(rest.take(read).filter(source)),
        decreases conversation.entries.len() - i,
    {
        let entry = &conversation.entries[i];
        proof {
            reveal(Seq::filter);
            assert(rest.take(read + 1).drop_last() =~= rest.take(read));
            assert(rest.take(read + 1).last() == entry.deep_view());
        }
        if entry.extractable && entry.kind == LlmConversationEntryKind::Chat {
            let ghost before = lines.deep_view();
            let line = render_conversation_entry(entry);
            lines.push(line);
            assert(lines.deep_view() =~= before.push(line@));
            assert(lines.deep_view() =~= entry_lines(rest.take(read + 1).filter(source)));
        }
        i = i + 1;
        proof {
            read = read + 1;
        }
    }
    assert(rest.take(rest.len() as int) =~= rest);
    assert(read == rest.len());
    assert(lines.deep_view().len() == lines.len());
    if lines.len() == 0 {
        None
    } else {
        Some(join(lines.as_slice(), "\n"))
    }
}

/// A thread with the latest of its entries.
pub open spec fn recent(thread: Thread) -> Thread {
    if thread.entries.len() > MAX_RECENT_ENTRIES {
        let cut = thread.entries.len() - MAX_RECENT_ENTRIES;
        Thread {
            entries: thread.entries.skip(cut),
            processed_entry_count: if thread.processed_entry_count >= cut {
                (thread.processed_entry_count - cut) as usize
            } else {
                0
            },
            ..thread
        }
    } else {
        thread
    }
}

fn trim_conversation_context(conversation: &mut LlmConversationState)
    ensures
        final(conversation).deep_view() == recent(old(conversation).deep_view()),
{
    let ghost before = conversation.deep_view();
    if conversation.entries.len() > MAX_RECENT_ENTRIES {
        let remove_count: usize = conversation.entries.len() - MAX_RECENT_ENTRIES;
        let latest = conversation.entries.split_off(remove_count);
        assert(latest.deep_view() =~= before.entries.skip(remove_count as int));
        conversation.entries = latest;
        conversation.processed_entry_count = conversation.processed_entry_count.saturating_sub(
            remove_count,
        );
    }
}

/// A thread without the facts that have expired on a day.
pub open spec fn without_expired(thread: Thread, today: Option<i64>) -> Thread {
    Thread { facts: unexpired(thread.facts, today), ..thread }
}

/// Drops the facts of a thread that have expired on a day.
pub fn expire_conversation_facts_on(conversation: &mut LlmConversationState, today: Option<i64>)
    ensures
        final(conversation).deep_view() == without_expired(old(conversation).deep_view(), today),
{
    prune_expired_facts_on(&mut conversation.facts, today);
}

/// Drops the facts of a thread that have expired by now.
pub fn expire_conversation_facts(conversation: &mut LlmConversationState)
    ensures
        exists|now: std::time::SystemTime| #[trigger]
            call_ensures(std::time::SystemTime::now, (), now) && final(conversation).deep_view()
                == without_expired(old(conversation).deep_view(), day_at(now)),
{
    let today = current_utc_days_since_epoch();
    expire_conversation_facts_on(conversation, today);
}

/// A thread with its expired facts, its older entries and its lower-ranked facts gone.
pub open spec fn compacted(thread: Thread, today: Option<i64>) -> Thread {
    let shorter = recent(without_expired(thread, today));
    Thread { facts: topmost(shorter.facts), ..shorter }
}

/// Drops the expired facts, the older entries and the lower-ranked facts of a thread.
pub fn compact_conversation_state_on(conversation: &mut LlmConversationState, today: Option<i64>)
    ensures
        final(conversation).deep_view() == compacted(old(conversation).deep_view(), today),
{
    expire_conversation_facts_on(conversation, today);
    trim_conversation_context(conversation);
    trim_facts(&mut conversation.facts);
}

/// Drops the expired facts, the older entries and the lower-ranked facts of a thread.
pub fn compact_conversation_state(conversation: &mut LlmConversationState)
    ensures
        exists|now: std::time::SystemTime| #[trigger]
            call_ensures(std::time::SystemTime::now, (), now) && final(conversation).deep_view()
                == compacted(old(conversation).deep_view(), day_at(now)),
{
    let today = current_utc_days_since_epoch();
    compact_conversation_state_on(conversation, today);
}

/// A thread at the start of a refresh of its facts: without its expired facts, and cut
/// to its latest entries if there is nothing to draw facts from.
pub open spec fn refresh_begun(thread: Thread, today: Option<i64>) -> Thread {
    let alive = without_expired(thread, today);
    if pending_text(alive) is None {
        recent(alive)
    } else {
        alive
    }
}

/// Starts a refresh of the facts of a thread, and gives the text that facts are to be
/// drawn from. Without one the refresh is already done.
pub fn begin_fact_refresh(conversation: &mut LlmConversationState, today: Option<i64>) -> (r:
    Option<String>)
    ensures
        r.deep_view() == pending_text(old(conversation).deep_view()),
        final(conversation).deep_view() == refresh_begun(old(conversation).deep_view(), today),
{
    expire_conversation_facts_on(conversation, today);
    let input = pending_fact_extraction_input(conversation);
    if input.is_none() {
        trim_conversation_context(conversation);
    }
    input
}

/// A thread after facts were drawn from its pending entries.
pub open spec fn refresh_completed(
    thread: Thread,
    facts: Seq<crate::types::Fact>,
    today: Option<i64>,
) -> Thread {
    recent(
        Thread {
            facts: merged(thread.facts, facts, today),
            processed_entry_count: thread.entries.len() as usize,
            ..thread
        },
    )
}

/// Ends a refresh of the facts of a thread with the facts that were drawn.
pub fn complete_fact_refresh(
    conversation: &mut LlmConversationState,
    facts: Vec<LlmConversationFact>,
    today: Option<i64>,
)
    ensures
        final(conversation).deep_view() == refresh_completed(
            old(conversation).deep_view(),
            facts.deep_view(),
            today,
        ),
{
    merge_conversation_facts_on(&mut conversation.facts, facts, today);
    conversation.processed_entry_count = conversation.entries.len();
    trim_conversation_context(conversation);
}

} // verus!
