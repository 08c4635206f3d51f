//! What the tasks of a bridge keep of the requests that they come from, and what stays
//! as it is while they run.

use crate::bridge::{
    after_command, after_compaction, after_notice, after_release, after_reset, after_sending,
    after_start, after_turn, are_facts_of, delivered, ends_after_refresh, facts_in_order, key_of,
    looked_up, must_wait, names_threads_of, next_of, refreshed_thread, task_for, thread_or_empty,
    with_refreshed, world_for, Bridge, Key, Refresh, TurnResult,
};
use crate::events::ConversationCommand;
use crate::fact_laws::{
    law_merging_makes_nothing_up, law_merging_within_the_limit_loses_no_text,
    law_only_expired_facts_leave,
};
use crate::facts::{is_expired, merged, unexpired, MAX_FACTS};
use crate::history::compacted;
use crate::history_laws::{
    law_appending_keeps_what_was_there, law_expiring_leaves_the_history_alone,
    law_turns_are_kept_as_they_were,
};
use crate::reply::is_offered;
use crate::text::same_but_case;
use crate::turn::is_error;
use crate::types::{Fact, LlmConversationEntryKind, Request, Thread, Turn, WorldContext};
use vstd::prelude::*;

verus! {

/// A task asks of the agent what the request asks: its agent, its conversation, its prompt
/// and its response mode, with the tools that the request offers, in order, and no others.
pub proof fn law_tasks_ask_what_was_requested(
    request: Request,
    world: Option<WorldContext>,
    thread: Option<Thread>,
    facts: Seq<Fact>,
    name: Seq<char>,
)
    ensures
        ({
            let task = task_for(request, world, thread, facts);
            &&& task.agent == request.agent
            &&& task.conversation_id == request.conversation_id
            &&& task.prompt == request.prompt
            &&& task.response_mode == request.response_mode
            &&& task.tools == request.tools
            &&& is_offered(task.tools, name) <==> exists|i: int|
                0 <= i < request.tools.len() && (#[trigger] request.tools[i]).name == name
            &&& task.world == world
            &&& task.conversation == thread
            &&& task.facts == facts
        }),
{
}

/// The tasks of two requests that differ in their tools, prompts, response modes or worlds
/// differ there too.
pub proof fn law_different_requests_are_different_tasks(
    first: Request,
    second: Request,
    first_world: Option<WorldContext>,
    second_world: Option<WorldContext>,
    thread: Option<Thread>,
    facts: Seq<Fact>,
)
    requires
        task_for(first, first_world, thread, facts) == task_for(
            second,
            second_world,
            thread,
            facts,
        ),
    ensures
        first.agent == second.agent,
        first.conversation_id == second.conversation_id,
        first.prompt == second.prompt,
        first.response_mode == second.response_mode,
        first.tools == second.tools,
        first_world == second_world,
{
    let task = task_for(first, first_world, thread, facts);
    law_tasks_ask_what_was_requested(first, first_world, thread, facts, seq![]);
    law_tasks_ask_what_was_requested(second, second_world, thread, facts, seq![]);
    assert(task.tools == first.tools);
}

/// A request without a world of its own sees the one that was set last for its agent, and
/// none if none is set; setting a world concerns no other agent.
pub proof fn law_requests_see_the_world_of_their_agent(
    bridge: Bridge,
    agent: Seq<char>,
    world: WorldContext,
    request: Request,
)
    requires
        request.world_override is None,
    ensures
        ({
            let after = Bridge { worlds: bridge.worlds.insert(agent, world), ..bridge };
            &&& request.agent == agent ==> world_for(after, request) == Some(world)
            &&& request.agent != agent ==> world_for(after, request) == world_for(bridge, request)
            &&& !bridge.worlds.dom().contains(request.agent) ==> world_for(bridge, request) is None
            &&& bridge.worlds.dom().contains(request.agent) ==> world_for(bridge, request) == Some(
                bridge.worlds[request.agent],
            )
        }),
{
}

/// A refreshed thread takes the place of the one that the request had, for the request and
/// in the bridge; a refresh that brought none changes nothing, and no other thread changes.
pub proof fn law_refreshed_threads_take_their_place(
    bridge: Bridge,
    key: Key,
    before: Option<Thread>,
    refresh: Option<Refresh>,
    other: Key,
)
    ensures
        match refresh {
            Some(Refresh::Refreshed(thread)) => {
                &&& refreshed_thread(before, refresh) == Some(thread)
                &&& looked_up(with_refreshed(bridge, Some(key), refresh).conversations, key)
                    == Some(thread)
            },
            _ => {
                &&& refreshed_thread(before, refresh) == before
                &&& with_refreshed(bridge, Some(key), refresh) == bridge
            },
        },
        other != key ==> looked_up(
            with_refreshed(bridge, Some(key), refresh).conversations,
            other,
        ) == looked_up(bridge.conversations, other),
        with_refreshed(bridge, Some(key), refresh).worlds == bridge.worlds,
        with_refreshed(bridge, None, refresh) == bridge,
{
}

/// A request goes on after the refresh of its facts unless it or the refresh was cancelled,
/// also where the refresh failed; one that belongs to no thread goes on unless the refresh
/// was cancelled.
pub proof fn law_requests_end_only_when_cancelled(
    key: Option<Key>,
    refresh: Option<Refresh>,
    cancelled: bool,
)
    ensures
        refresh is None && !cancelled ==> !ends_after_refresh(key, refresh, cancelled),
        refresh matches Some(Refresh::Failed(_)) && !cancelled ==> !ends_after_refresh(
            key,
            refresh,
            cancelled,
        ),
        refresh matches Some(Refresh::Refreshed(_)) && !cancelled ==> !ends_after_refresh(
            key,
            refresh,
            cancelled,
        ),
        key is None && !(refresh matches Some(Refresh::Cancelled)) ==> !ends_after_refresh(
            key,
            refresh,
            cancelled,
        ),
        refresh matches Some(Refresh::Cancelled) ==> ends_after_refresh(key, refresh, cancelled),
        cancelled && key is Some ==> ends_after_refresh(key, refresh, cancelled),
{
}

/// When a request starts, its thread exists and it has a token, which stays the one that it
/// had. Of its agent's threads the expired facts are gone and no others; the history of
/// every thread, the threads of other agents, and all worlds stay as they were.
pub proof fn law_starting_keeps_every_thread(
    bridge: Bridge,
    request: Request,
    today: Option<i64>,
    key: Key,
)
    ensures
        ({
            let after = after_start(bridge, request, today);
            let own = key_of(request.agent, request.conversation_id);
            let was = thread_or_empty(bridge.conversations, key);
            let is = thread_or_empty(after.conversations, key);
            &&& after.worlds == bridge.worlds
            &&& after.generated == bridge.generated
            &&& after.generated_cancellations == bridge.generated_cancellations
            &&& after.tool_calling == bridge.tool_calling
            &&& after.conversations.dom().contains(key) <==> bridge.conversations.dom().contains(
                key,
            ) || own == Some(key)
            &&& is.entries == was.entries
            &&& is.processed_entry_count == was.processed_entry_count
            &&& is.next_entry_sequence == was.next_entry_sequence
            &&& own is Some && key.agent == request.agent ==> forall|fact: Fact| #[trigger]
                is.facts.contains(fact) <==> was.facts.contains(fact) && !is_expired(fact, today)
            &&& key.agent != request.agent ==> is == was
            &&& own matches Some(own) ==> after.cancellations.dom().contains(own) && (
            bridge.cancellations.dom().contains(own) ==> after.cancellations
                == bridge.cancellations)
            &&& own != Some(key) ==> looked_up(after.cancellations, key) == looked_up(
                bridge.cancellations,
                key,
            )
        }),
{
    let was = thread_or_empty(bridge.conversations, key);
    law_only_expired_facts_leave(was.facts, today);
    law_expiring_leaves_the_history_alone(was, today);
    reveal(Seq::filter);
    assert(unexpired(seq![], today) =~= seq![]);
}

/// A turn that was generated is delivered as it is; a failure is delivered as a report to
/// the agent and the conversation of the request.
pub proof fn law_turns_are_delivered_as_generated(request: Request, result: TurnResult)
    ensures
        result matches TurnResult::Generated(turn) ==> delivered(request, result) == Some(turn),
        result matches TurnResult::Failed(reason) ==> delivered(request, result) matches Some(turn)
            && turn.agent == request.agent && turn.conversation_id == request.conversation_id
            && is_error(turn.response),
{
    if let TurnResult::Failed(reason) = result {
        crate::turn::law_reported_errors_are_errors(reason);
    }
}

/// After a turn without an error the thread of the request ends with the prompt of the
/// request and what the turn says, behind everything that stood there; the facts and all
/// else in the bridge stay.
pub proof fn law_turns_are_remembered(bridge: Bridge, request: Request, turn: Turn)
    requires
        request.conversation_id is Some,
        !is_error(turn.response),
    ensures
        ({
            let key = key_of(request.agent, request.conversation_id)->0;
            let before = thread_or_empty(bridge.conversations, key);
            let after = after_turn(bridge, request, TurnResult::Generated(turn));
            let thread = after.conversations[key];
            let n = before.entries.len() as int;
            &&& thread.entries.len() == n + 2
            &&& thread.entries.take(n) == before.entries
            &&& thread.entries[n].text == request.prompt
            &&& thread.entries[n + 1].speaker == request.agent
            &&& turn.tool_calls.len() == 0 ==> thread.entries[n + 1].text == turn.response
            &&& thread.facts == before.facts
            &&& after.worlds == bridge.worlds
            &&& after.cancellations == bridge.cancellations
        }),
{
    let key = key_of(request.agent, request.conversation_id)->0;
    law_turns_are_kept_as_they_were(
        thread_or_empty(bridge.conversations, key),
        request.agent,
        request.prompt,
        turn.response,
        turn.tool_calls,
    );
}

/// Resetting a thread forgets it, the request that waits for it and its token; the request
/// that runs in it still runs, and nothing else changes.
pub proof fn law_resetting_concerns_one_thread(bridge: Bridge, key: Key, other: Key)
    ensures
        ({
            let after = after_reset(bridge, key);
            &&& looked_up(after.conversations, key) is None
            &&& next_of(after, Some(key)) is None
            &&& looked_up(after.cancellations, key) is None
            &&& after.active == bridge.active
            &&& after.worlds == bridge.worlds
            &&& after.generated == bridge.generated
            &&& other != key ==> {
                &&& looked_up(after.conversations, other) == looked_up(bridge.conversations, other)
                &&& next_of(after, Some(other)) == next_of(bridge, Some(other))
                &&& looked_up(after.cancellations, other) == looked_up(bridge.cancellations, other)
            }
        }),
{
}

/// Compacting a thread compacts that thread and no other, and makes none.
pub proof fn law_compacting_concerns_one_thread(
    bridge: Bridge,
    key: Key,
    today: Option<i64>,
    other: Key,
)
    ensures
        ({
            let after = after_compaction(bridge, key, today);
            &&& after.conversations.dom() == bridge.conversations.dom()
            &&& bridge.conversations.dom().contains(key) ==> after.conversations[key] == compacted(
                bridge.conversations[key],
                today,
            )
            &&& other != key ==> looked_up(after.conversations, other) == looked_up(
                bridge.conversations,
                other,
            )
            &&& after.worlds == bridge.worlds
            &&& after.pending == bridge.pending
            &&& after.cancellations == bridge.cancellations
        }),
{
    assert(after_compaction(bridge, key, today).conversations.dom()
        =~= bridge.conversations.dom());
}

/// A notice stands last in its thread, word for word, as one that no participant said; what
/// stood there stays, and no other thread changes.
pub proof fn law_notices_are_appended(bridge: Bridge, key: Key, message: Seq<char>, other: Key)
    ensures
        ({
            let before = thread_or_empty(bridge.conversations, key);
            let after = after_notice(bridge, key, message);
            let thread = after.conversations[key];
            &&& after.conversations.dom().contains(key)
            &&& thread.entries.drop_last() == before.entries
            &&& thread.entries.last().text == message
            &&& thread.entries.last().kind == LlmConversationEntryKind::Control
            &&& !thread.entries.last().extractable
            &&& thread.facts == before.facts
            &&& other != key ==> looked_up(after.conversations, other) == looked_up(
                bridge.conversations,
                other,
            )
            &&& after.worlds == bridge.worlds
        }),
{
    law_appending_keeps_what_was_there(
        thread_or_empty(bridge.conversations, key),
        "system"@,
        message,
        LlmConversationEntryKind::Control,
        false,
    );
}

/// A command does to the thread that it names what it says: forgets it, compacts it, or
/// appends its message.
pub proof fn law_commands_do_what_they_say(
    bridge: Bridge,
    command: ConversationCommand,
    today: Option<i64>,
    other: Key,
)
    ensures
        ({
            let after = after_command(bridge, command, today);
            match command {
                ConversationCommand::Reset { agent, conversation_id } => {
                    let key = Key { agent, conversation_id };
                    &&& looked_up(after.conversations, key) is None
                    &&& next_of(after, Some(key)) is None
                    &&& other != key ==> looked_up(after.conversations, other) == looked_up(
                        bridge.conversations,
                        other,
                    )
                },
                ConversationCommand::Compact { agent, conversation_id } => {
                    let key = Key { agent, conversation_id };
                    &&& bridge.conversations.dom().contains(key) ==> after.conversations[key]
                        == compacted(bridge.conversations[key], today)
                    &&& other != key ==> looked_up(after.conversations, other) == looked_up(
                        bridge.conversations,
                        other,
                    )
                },
                ConversationCommand::AppendMessage { agent, conversation_id, message } => {
                    let key = Key { agent, conversation_id };
                    let before = thread_or_empty(bridge.conversations, key);
                    &&& after.conversations[key].entries.last().text == message
                    &&& after.conversations[key].entries.drop_last() == before.entries
                    &&& other != key ==> looked_up(after.conversations, other) == looked_up(
                        bridge.conversations,
                        other,
                    )
                },
            }
        }),
{
    match command {
        ConversationCommand::Reset { agent, conversation_id } => {
            law_resetting_concerns_one_thread(bridge, Key { agent, conversation_id }, other);
        },
        ConversationCommand::Compact { agent, conversation_id } => {
            law_compacting_concerns_one_thread(
                bridge,
                Key { agent, conversation_id },
                today,
                other,
            );
        },
        ConversationCommand::AppendMessage { agent, conversation_id, message } => {
            law_notices_are_appended(bridge, Key { agent, conversation_id }, message, other);
        },
    }
}

/// Sending a request concerns its own thread alone: another request waits there for the
/// same threads as before, and what is kept of the agents does not change.
pub proof fn law_sending_concerns_one_thread(bridge: Bridge, request: Request, other: Key)
    requires
        key_of(request.agent, request.conversation_id) != Some(other),
    ensures
        ({
            let after = after_sending(bridge, request);
            &&& next_of(after, Some(other)) == next_of(bridge, Some(other))
            &&& after.active.contains(other) == bridge.active.contains(other)
            &&& after.conversations == bridge.conversations
            &&& after.worlds == bridge.worlds
            &&& after.cancellations == bridge.cancellations
            &&& after.next_token == bridge.next_token
        }),
{
}

/// Whether a request waits rests on whether one runs in a thread of the same agent and of
/// the same conversation.
pub proof fn law_requests_wait_for_their_own_thread(
    bridge: Bridge,
    request: Request,
    conversation_id: Seq<char>,
)
    requires
        request.conversation_id == Some(conversation_id),
    ensures
        must_wait(bridge, request) <==> bridge.active.contains(
            Key { agent: request.agent, conversation_id },
        ),
        must_wait(bridge, request) ==> next_of(
            after_sending(bridge, request),
            Some(Key { agent: request.agent, conversation_id }),
        ) == Some(request),
{
}

/// Making room in a thread concerns that thread alone, and leaves the histories and the
/// worlds as they are: the request that waited runs next, and waits no more.
pub proof fn law_releasing_concerns_one_thread(bridge: Bridge, key: Key, other: Key)
    ensures
        ({
            let after = after_release(bridge, key);
            &&& after.conversations == bridge.conversations
            &&& after.worlds == bridge.worlds
            &&& after.generated == bridge.generated
            &&& next_of(after, Some(key)) is None
            &&& after.active.contains(key) <==> bridge.active.contains(key) && next_of(
                bridge,
                Some(key),
            ) is Some
            &&& other != key ==> {
                &&& next_of(after, Some(other)) == next_of(bridge, Some(other))
                &&& after.active.contains(other) == bridge.active.contains(other)
                &&& looked_up(after.cancellations, other) == looked_up(bridge.cancellations, other)
            }
        }),
{
}

proof fn lemma_facts_in_order(
    conversations: Map<Key, Thread>,
    order: Seq<Key>,
    today: Option<i64>,
    fact: Fact,
)
    requires
        facts_in_order(conversations, order, today).contains(fact),
    ensures
        exists|i: int|
            0 <= i < order.len() && conversations[#[trigger] order[i]].facts.contains(fact),
    decreases order.len(),
{
    if order.len() > 0 {
        let before = order.drop_last();
        let held = facts_in_order(conversations, before, today);
        let last = conversations[order.last()].facts;
        law_merging_makes_nothing_up(held, last, today);
        assert(merged(held, last, today).contains(fact));
        if last.contains(fact) {
            assert(conversations[order[order.len() - 1]].facts.contains(fact));
        } else {
            lemma_facts_in_order(conversations, before, today, fact);
            let i = choose|i: int|
                0 <= i < before.len() && conversations[#[trigger] before[i]].facts.contains(fact);
            assert(conversations[order[i]].facts.contains(fact));
        }
    }
}

/// The facts of an agent are facts of the agent's own threads, whatever other agents know.
pub proof fn law_agents_know_only_their_own_facts(
    conversations: Map<Key, Thread>,
    agent: Seq<char>,
    today: Option<i64>,
    facts: Seq<Fact>,
    fact: Fact,
)
    requires
        are_facts_of(conversations, agent, today, facts),
        facts.contains(fact),
    ensures
        exists|key: Key| #[trigger]
            conversations.dom().contains(key) && key.agent == agent
                && conversations[key].facts.contains(fact),
{
    let order = choose|order: Seq<Key>| #[trigger]
        names_threads_of(conversations, agent, order) && facts == facts_in_order(
            conversations,
            order,
            today,
        );
    lemma_facts_in_order(conversations, order, today, fact);
    let i = choose|i: int|
        0 <= i < order.len() && conversations[#[trigger] order[i]].facts.contains(fact);
    assert(order.contains(order[i]));
    assert(conversations.dom().contains(order[i]));
}

/// An agent with one thread knows the facts of that thread: those that a merge into none
/// keeps. An agent without threads knows nothing.
pub proof fn law_an_agent_with_one_thread_knows_its_facts(
    conversations: Map<Key, Thread>,
    agent: Seq<char>,
    today: Option<i64>,
    facts: Seq<Fact>,
    key: Key,
)
    requires
        are_facts_of(conversations, agent, today, facts),
        forall|k: Key| #[trigger]
            conversations.dom().contains(k) && k.agent == agent ==> k == key,
    ensures
        conversations.dom().contains(key) && key.agent == agent ==> facts == merged(
            seq![],
            conversations[key].facts,
            today,
        ),
        !(conversations.dom().contains(key) && key.agent == agent) ==> facts.len() == 0,
{
    let order = choose|order: Seq<Key>| #[trigger]
        names_threads_of(conversations, agent, order) && facts == facts_in_order(
            conversations,
            order,
            today,
        );
    if order.len() > 0 {
        assert(order.contains(order[0]));
        assert(order[0] == key);
    }
    if order.len() > 1 {
        assert(order.contains(order[1]));
        assert(order[1] == key);
        assert(false);
    }
    if conversations.dom().contains(key) && key.agent == agent {
        assert(order.contains(key));
        assert(order.len() == 1);
        assert(order.drop_last() =~= seq![]);
        assert(facts_in_order(conversations, order.drop_last(), today) =~= seq![]);
    }
}

/// How many facts the threads of a list hold.
pub open spec fn fact_count(conversations: Map<Key, Thread>, order: Seq<Key>) -> nat
    decreases order.len(),
{
    if order.len() == 0 {
        0
    } else {
        fact_count(conversations, order.drop_last()) + conversations[order.last()].facts.len()
    }
}

proof fn lemma_facts_within_the_limit(
    conversations: Map<Key, Thread>,
    order: Seq<Key>,
    today: Option<i64>,
    i: int,
    fact: Fact,
)
    requires
        fact_count(conversations, order) <= MAX_FACTS,
        forall|j: int, other: Fact|
            0 <= j < order.len() && #[trigger] conversations[order[j]].facts.contains(other)
                ==> !is_expired(other, today),
        0 <= i < order.len(),
        conversations[order[i]].facts.contains(fact),
    ensures
        exists|k: int|
            0 <= k < facts_in_order(conversations, order, today).len() && same_but_case(
                #[trigger] facts_in_order(conversations, order, today)[k].fact,
                fact.fact,
            ),
    decreases order.len(),
{
    let before = order.drop_last();
    let held = facts_in_order(conversations, before, today);
    let last = conversations[order.last()].facts;
    lemma_fact_count(conversations, before, today);
    lemma_unexpired_len(held, today);
    assert forall|j: int, other: Fact|
        0 <= j < before.len() && #[trigger] conversations[before[j]].facts.contains(
            other,
        ) implies !is_expired(other, today) by {
        assert(before[j] == order[j]);
    }
    let after = facts_in_order(conversations, order, today);
    assert(after == merged(held, last, today));
    if i == order.len() - 1 {
        law_merging_within_the_limit_loses_no_text(held, last, today, fact);
        let k = choose|k: int|
            0 <= k < merged(held, last, today).len() && same_but_case(
                #[trigger] merged(held, last, today)[k].fact,
                fact.fact,
            );
        assert(same_but_case(after[k].fact, fact.fact));
    } else {
        assert(before[i] == order[i]);
        lemma_facts_within_the_limit(conversations, before, today, i, fact);
        let k = choose|k: int|
            0 <= k < held.len() && same_but_case(#[trigger] held[k].fact, fact.fact);
        assert(held.contains(held[k]));
        lemma_facts_in_order(conversations, before, today, held[k]);
        law_merging_within_the_limit_loses_no_text(held, last, today, held[k]);
        let m = choose|m: int|
            0 <= m < merged(held, last, today).len() && same_but_case(
                #[trigger] merged(held, last, today)[m].fact,
                held[k].fact,
            );
        assert(same_but_case(after[m].fact, fact.fact));
    }
}

proof fn lemma_unexpired_len(facts: Seq<Fact>, today: Option<i64>)
    ensures
        unexpired(facts, today).len() <= facts.len(),
    decreases facts.len(),
{
    reveal(Seq::filter);
    if facts.len() > 0 {
        lemma_unexpired_len(facts.drop_last(), today);
    }
}

proof fn lemma_fact_count(conversations: Map<Key, Thread>, order: Seq<Key>, today: Option<i64>)
    ensures
        facts_in_order(conversations, order, today).len() <= fact_count(conversations, order),
    decreases order.len(),
{
    if order.len() > 0 {
        let before = order.drop_last();
        lemma_fact_count(conversations, before, today);
        let held = facts_in_order(conversations, before, today);
        lemma_unexpired_len(held, today);
        crate::fact_laws::law_merging_adds_no_more_than_came_in(
            held,
            conversations[order.last()].facts,
            today,
        );
    }
}

/// While an agent's threads hold no more facts than are kept, and none that has expired,
/// the agent knows the text of each of them, case aside.
pub proof fn law_agents_know_all_their_facts(
    conversations: Map<Key, Thread>,
    agent: Seq<char>,
    today: Option<i64>,
    facts: Seq<Fact>,
    key: Key,
    fact: Fact,
)
    requires
        are_facts_of(conversations, agent, today, facts),
        forall|order: Seq<Key>| #[trigger]
            names_threads_of(conversations, agent, order) ==> fact_count(conversations, order)
                <= MAX_FACTS,
        forall|k: Key, other: Fact|
            conversations.dom().contains(k) && k.agent == agent
                && #[trigger] conversations[k].facts.contains(other) ==> !is_expired(other, today),
        conversations.dom().contains(key),
        key.agent == agent,
        conversations[key].facts.contains(fact),
    ensures
        exists|i: int|
            0 <= i < facts.len() && same_but_case(#[trigger] facts[i].fact, fact.fact),
{
    let order = choose|order: Seq<Key>| #[trigger]
        names_threads_of(conversations, agent, order) && facts == facts_in_order(
            conversations,
            order,
            today,
        );
    assert(order.contains(key));
    let i = choose|i: int| 0 <= i < order.len() && order[i] == key;
    assert forall|j: int, other: Fact|
        0 <= j < order.len() && #[trigger] conversations[order[j]].facts.contains(
            other,
        ) implies !is_expired(other, today) by {
        assert(order.contains(order[j]));
    }
    lemma_facts_within_the_limit(conversations, order, today, i, fact);
}

} // verus!
