//! What holds of a bridge whatever is sent through it.

use crate::bridge::{
    after_compaction, after_notice, after_release, after_release_of, after_reset, after_sending,
    after_start, after_turn, at_rest, delivered, key_of, looked_up, must_wait, next_of,
    thread_or_empty, with_refreshed, without_agent, world_for, Bridge, Key, Refresh, TurnResult,
};
use crate::facts::merged;
use crate::generation::deduped;
use crate::history::with_turn;
use crate::model::LlmToolCallingMode;
use crate::sessions::{
    after_fact_store, after_generation, after_generation_start, after_generation_taken_up,
    is_latest, next_generation, store_key, stored_for, Extracted,
};
use crate::turn::{error_report, is_error, law_reported_errors_are_errors};
use crate::types::{Fact, Request, Thread, Turn, WorldContext};
use vstd::prelude::*;

verus! {

/// Whether requests wait only for threads in which one runs, each for its own thread.
pub open spec fn well_parked(bridge: Bridge) -> bool {
    forall|key: Key| #[trigger]
        bridge.pending.dom().contains(key) ==> bridge.active.contains(key) && key_of(
            bridge.pending[key].agent,
            bridge.pending[key].conversation_id,
        ) == Some(key)
}

/// Sending, releasing, resetting and clearing leave requests waiting only for threads in
/// which one runs.
pub proof fn law_requests_wait_only_behind_others(
    bridge: Bridge,
    request: Request,
    key: Key,
    agent: Seq<char>,
)
    requires
        well_parked(bridge),
    ensures
        well_parked(after_sending(bridge, request)),
        well_parked(after_release(bridge, key)),
        well_parked(after_reset(bridge, key)),
        well_parked(without_agent(bridge, agent)),
{
    let cleared = without_agent(bridge, agent);
    assert forall|k: Key| #[trigger] cleared.pending.dom().contains(k) implies
        cleared.active.contains(k) && key_of(
        cleared.pending[k].agent,
        cleared.pending[k].conversation_id,
    ) == Some(k) by {
        assert(bridge.pending.dom().contains(k));
    }
}

/// Running a request, and all work beside it, does not touch what waits.
pub proof fn law_running_leaves_waiting_requests_alone(
    bridge: Bridge,
    request: Request,
    key: Key,
    refresh: Option<Refresh>,
    turn: Turn,
    message: Seq<char>,
    session_id: Seq<char>,
    ids: Seq<Seq<char>>,
    generation: u64,
    extracted: Extracted,
    today: Option<i64>,
)
    ensures
        ({
            let same = |after: Bridge|
                after.pending == bridge.pending && after.active == bridge.active;
            &&& same(after_start(bridge, request, today))
            &&& same(with_refreshed(bridge, Some(key), refresh))
            &&& same(after_turn(bridge, request, TurnResult::Generated(turn)))
            &&& same(after_turn(bridge, request, TurnResult::Failed(message)))
            &&& same(after_compaction(bridge, key, today))
            &&& same(after_notice(bridge, key, message))
            &&& same(after_generation_start(bridge, session_id, ids))
            &&& same(after_generation_taken_up(bridge, session_id))
            &&& same(after_generation(bridge, session_id, generation))
            &&& same(after_fact_store(bridge, ids, extracted, today))
        }),
{
}

/// In a bridge at rest nothing waits, and no token is in use.
pub proof fn law_bridges_start_in_order(tool_calling: LlmToolCallingMode)
    ensures
        well_parked(at_rest(tool_calling)),
        tokens_apart(at_rest(tool_calling)),
{
}

/// A request that is sent for a thread in which none runs takes it, and every other for the
/// same thread waits until it is released.
pub proof fn law_one_request_runs_in_a_thread(bridge: Bridge, first: Request, second: Request)
    requires
        first.conversation_id is Some,
        second.agent == first.agent,
        second.conversation_id == first.conversation_id,
    ensures
        must_wait(after_sending(bridge, first), second),
        after_sending(bridge, first).active.contains(
            key_of(first.agent, first.conversation_id)->0,
        ),
{
}

/// Of the requests that are sent while one runs in their thread, the newest alone is kept,
/// and it runs next.
pub proof fn law_newest_request_runs_next(bridge: Bridge, older: Request, newer: Request)
    requires
        must_wait(bridge, older),
        newer.agent == older.agent,
        newer.conversation_id == older.conversation_id,
    ensures
        ({
            let key = key_of(older.agent, older.conversation_id);
            let waiting = after_sending(after_sending(bridge, older), newer);
            &&& next_of(waiting, key) == Some(newer)
            &&& must_wait(after_release_of(waiting, key), older)
            &&& next_of(after_release_of(waiting, key), key) is None
        }),
{
    let key = key_of(older.agent, older.conversation_id)->0;
    let waiting = after_sending(after_sending(bridge, older), newer);
    assert(waiting.pending.dom().contains(key));
}

/// A request that runs through, while no other is sent for its thread, leaves the thread
/// as free as it was.
pub proof fn law_finished_request_frees_its_thread(
    bridge: Bridge,
    request: Request,
    turn: Turn,
    today: Option<i64>,
)
    requires
        request.conversation_id is Some,
        turn.agent == request.agent,
        turn.conversation_id == request.conversation_id,
        ({
            let key = key_of(request.agent, request.conversation_id)->0;
            &&& !bridge.active.contains(key)
            &&& !bridge.pending.dom().contains(key)
            &&& !bridge.cancellations.dom().contains(key)
        }),
    ensures
        ({
            let running = after_start(after_sending(bridge, request), request, today);
            let done = after_turn(running, request, TurnResult::Generated(turn));
            let after = after_release_of(done, key_of(turn.agent, turn.conversation_id));
            &&& after.active == bridge.active
            &&& after.pending == bridge.pending
            &&& after.cancellations == bridge.cancellations
        }),
{
    let running = after_start(after_sending(bridge, request), request, today);
    let done = after_turn(running, request, TurnResult::Generated(turn));
    let after = after_release_of(done, key_of(turn.agent, turn.conversation_id));
    assert(after.active =~= bridge.active);
    assert(after.pending =~= bridge.pending);
    assert(after.cancellations =~= bridge.cancellations);
}

/// A request that belongs to no thread never waits, and nothing of it or of its turn is
/// kept.
pub proof fn law_stateless_requests_leave_no_trace(
    bridge: Bridge,
    request: Request,
    result: TurnResult,
    today: Option<i64>,
)
    requires
        request.conversation_id is None,
    ensures
        !must_wait(bridge, request),
        after_sending(bridge, request) == bridge,
        after_start(bridge, request, today) == bridge,
        after_turn(bridge, request, result) == bridge,
{
}

/// A request that is sent for a thread in which one has started cancels that one: it has a
/// token, and the newer request finds it.
pub proof fn law_newer_request_cancels_the_running_one(
    bridge: Bridge,
    running: Request,
    newer: Request,
    today: Option<i64>,
)
    requires
        running.conversation_id is Some,
        newer.agent == running.agent,
        newer.conversation_id == running.conversation_id,
    ensures
        ({
            let key = key_of(running.agent, running.conversation_id)->0;
            let started = after_start(after_sending(bridge, running), running, today);
            &&& must_wait(started, newer)
            &&& looked_up(started.cancellations, key) == Some(started.cancellations[key])
        }),
{
}

/// Whether no token stands for two requests or generations, and none that is yet to be
/// given out is in use.
pub open spec fn tokens_apart(bridge: Bridge) -> bool {
    let threads = bridge.cancellations;
    let sessions = bridge.generated_cancellations;
    &&& forall|key: Key| #[trigger] threads.dom().contains(key) ==> threads[key] < bridge.next_token
    &&& forall|id: Seq<char>| #[trigger]
        sessions.dom().contains(id) ==> sessions[id] < bridge.next_token
    &&& threads.is_injective()
    &&& sessions.is_injective()
    &&& forall|key: Key, id: Seq<char>|
        #![trigger threads.dom().contains(key), sessions.dom().contains(id)]
        threads.dom().contains(key) && sessions.dom().contains(id) ==> threads[key] != sessions[id]
}

/// Each request and each generation that runs has a token of its own, so that whoever
/// cancels one cancels no other. This holds until the tokens are used up.
pub proof fn law_tokens_are_never_shared(
    bridge: Bridge,
    request: Request,
    result: TurnResult,
    key: Key,
    agent: Seq<char>,
    session_id: Seq<char>,
    participants: Seq<Seq<char>>,
    generation: u64,
    today: Option<i64>,
)
    requires
        tokens_apart(bridge),
        bridge.next_token < u64::MAX,
    ensures
        tokens_apart(after_sending(bridge, request)),
        tokens_apart(after_start(bridge, request, today)),
        tokens_apart(after_turn(bridge, request, result)),
        tokens_apart(after_release(bridge, key)),
        tokens_apart(after_reset(bridge, key)),
        tokens_apart(without_agent(bridge, agent)),
        tokens_apart(after_generation_start(bridge, session_id, participants)),
        tokens_apart(after_generation_taken_up(bridge, session_id)),
        tokens_apart(after_generation(bridge, session_id, generation)),
{
}

/// The world that a request brings is the one it sees, and no other request sees it.
pub proof fn law_world_override_counts_for_its_request(
    bridge: Bridge,
    request: Request,
    world: WorldContext,
    other: Request,
    today: Option<i64>,
)
    requires
        request.world_override == Some(world),
    ensures
        world_for(bridge, request) == Some(world),
        world_for(after_start(after_sending(bridge, request), request, today), other) == world_for(
            bridge,
            other,
        ),
{
}

/// A turn that reports an error is delivered, but not kept.
pub proof fn law_errors_are_delivered_but_not_kept(
    bridge: Bridge,
    request: Request,
    reason: Seq<char>,
)
    ensures
        delivered(request, TurnResult::Failed(reason)) matches Some(turn) && turn.response
            == error_report(reason) && turn.tool_calls.len() == 0,
        after_turn(bridge, request, TurnResult::Failed(reason)) == bridge,
{
    law_reported_errors_are_errors(reason);
}

/// A request that is cancelled while its turn is generated delivers nothing, and the
/// threads stay as they were.
pub proof fn law_cancelled_requests_leave_no_trace(bridge: Bridge, request: Request)
    ensures
        delivered(request, TurnResult::Cancelled) is None,
        after_turn(bridge, request, TurnResult::Cancelled).conversations == bridge.conversations,
{
}

/// A turn that reports no error is kept in its thread, and in no other.
pub proof fn law_turns_are_kept_in_their_thread(
    bridge: Bridge,
    request: Request,
    turn: Turn,
    other: Key,
)
    requires
        request.conversation_id is Some,
        !is_error(turn.response),
        other != key_of(request.agent, request.conversation_id)->0,
    ensures
        ({
            let key = key_of(request.agent, request.conversation_id)->0;
            let after = after_turn(bridge, request, TurnResult::Generated(turn));
            &&& after.conversations.dom().contains(key)
            &&& after.conversations[key] == with_turn(
                thread_or_empty(bridge.conversations, key),
                request.agent,
                request.prompt,
                turn.response,
                turn.tool_calls,
            )
            &&& after.conversations.dom().contains(other) == bridge.conversations.dom().contains(
                other,
            )
            &&& bridge.conversations.dom().contains(other) ==> after.conversations[other]
                == bridge.conversations[other]
        }),
{
}

/// When a world is cleared nothing of its agent is left, and nothing of another agent
/// changes.
pub proof fn law_clearing_concerns_one_agent(bridge: Bridge, agent: Seq<char>, key: Key)
    ensures
        ({
            let after = without_agent(bridge, agent);
            &&& !after.worlds.dom().contains(agent)
            &&& key.agent == agent ==> !after.conversations.dom().contains(key)
                && !after.active.contains(key) && !after.pending.dom().contains(key)
                && !after.cancellations.dom().contains(key)
            &&& key.agent != agent ==> {
                &&& after.conversations.dom().contains(key) == bridge.conversations.dom().contains(
                    key,
                )
                &&& after.active.contains(key) == bridge.active.contains(key)
                &&& after.pending.dom().contains(key) == bridge.pending.dom().contains(key)
                &&& after.cancellations.dom().contains(key) == bridge.cancellations.dom().contains(
                    key,
                )
                &&& after.conversations.dom().contains(key) ==> after.conversations[key]
                    == bridge.conversations[key]
                &&& after.pending.dom().contains(key) ==> after.pending[key] == bridge.pending[key]
            }
        }),
{
}

/// A newer generation of a session takes the place of the older one, whose token it finds
/// and whose result is then dropped; what is left of the session is the newer one's.
pub proof fn law_newer_generation_supersedes(
    bridge: Bridge,
    session_id: Seq<char>,
    older: Seq<Seq<char>>,
    newer: Seq<Seq<char>>,
)
    ensures
        ({
            let first = after_generation_start(bridge, session_id, older);
            let second = after_generation_start(first, session_id, newer);
            let dropped = next_generation(bridge, session_id);
            let latest = next_generation(first, session_id);
            &&& is_latest(first, session_id, dropped)
            &&& !is_latest(second, session_id, dropped)
            &&& is_latest(second, session_id, latest)
            &&& after_generation(second, session_id, dropped) == second
            &&& looked_up(first.generated_cancellations, session_id) == Some(bridge.next_token)
            &&& second.generated[session_id].participants == deduped(newer)
        }),
{
}

proof fn lemma_stored_elsewhere(
    conversations: Map<Key, Thread>,
    agents: Seq<Seq<char>>,
    facts: Seq<Fact>,
    today: Option<i64>,
    key: Key,
)
    requires
        forall|i: int| 0 <= i < agents.len() ==> store_key(#[trigger] agents[i]) != key,
    ensures
        ({
            let after = stored_for(conversations, agents, facts, today);
            &&& after.dom().contains(key) == conversations.dom().contains(key)
            &&& conversations.dom().contains(key) ==> after[key] == conversations[key]
        }),
    decreases agents.len(),
{
    if agents.len() > 0 {
        let shorter = agents.drop_last();
        assert forall|i: int| 0 <= i < shorter.len() implies store_key(#[trigger] shorter[i])
            != key by {
            assert(store_key(agents[i]) != key);
        }
        lemma_stored_elsewhere(conversations, shorter, facts, today, key);
        assert(store_key(agents[agents.len() - 1]) != key);
    }
}

/// Facts are stored for each agent that is named, and nothing else of any thread changes.
pub proof fn law_facts_are_stored_for_each_agent(
    conversations: Map<Key, Thread>,
    agents: Seq<Seq<char>>,
    facts: Seq<Fact>,
    today: Option<i64>,
    key: Key,
)
    requires
        agents.no_duplicates(),
    ensures
        ({
            let after = stored_for(conversations, agents, facts, today);
            let before = thread_or_empty(conversations, key);
            if agents.contains(key.agent) && key == store_key(key.agent) {
                after.dom().contains(key) && after[key] == (Thread {
                    facts: merged(before.facts, facts, today),
                    ..before
                })
            } else {
                after.dom().contains(key) == conversations.dom().contains(key)
                    && thread_or_empty(after, key) == before
            }
        }),
    decreases agents.len(),
{
    if agents.contains(key.agent) && key == store_key(key.agent) {
        let shorter = agents.drop_last();
        assert(agents[agents.len() - 1] == agents.last());
        if agents.last() == key.agent {
            assert forall|i: int| 0 <= i < shorter.len() implies store_key(#[trigger] shorter[i])
                != key by {
                assert(agents[i] != agents[agents.len() - 1]);
            }
            lemma_stored_elsewhere(conversations, shorter, facts, today, key);
        } else {
            let k = choose|k: int| 0 <= k < agents.len() && agents[k] == key.agent;
            assert(shorter[k] == key.agent);
            law_facts_are_stored_for_each_agent(conversations, shorter, facts, today, key);
        }
    } else {
        assert forall|i: int| 0 <= i < agents.len() implies store_key(#[trigger] agents[i])
            != key by {
            if store_key(agents[i]) == key {
                assert(agents[i] == key.agent);
            }
        }
        lemma_stored_elsewhere(conversations, agents, facts, today, key);
    }
}

} // verus!
