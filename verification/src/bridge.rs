//! The bridge between the game and the workers: which request runs, which one waits,
//! what each of them sees, and what is kept of what comes back.
//!
//! The bridge decides; whoever owns it carries the decisions out. A cancellation is
//! named by a token: the owner keeps a flag for each token, and raises it when told to.

use crate::calendar::{current_utc_days_since_epoch, day_at};
use crate::events::{ConversationCommand, LlmConversationCommand};
use crate::facts::{merge_conversation_facts_on, merged};
use crate::history::{
    append_conversation_control, append_conversation_turn, compact_conversation_state_on,
    compacted, expire_conversation_facts_on, with_entry, with_turn, without_expired,
};
use crate::model::LlmToolCallingMode;
use crate::table::{Table, TableKey};
use crate::text::same_text;
use crate::turn::{
    error_report, is_error, is_llm_error_response, report_error, TurnGenerationTask, TurnTask,
};
use crate::types::{
    empty_thread, Fact, LlmConversationEntryKind, LlmConversationFact, LlmConversationState,
    LlmRequest, LlmTurn, LlmWorldContext, Request, Thread, Turn, WorldContext,
};
use vstd::prelude::*;

verus! {

/// The conversation in which the facts that are stored for an agent are kept.
pub const FACT_STORE_CONVERSATION_ID: &'static str = "fact_store";

/// A named conversation thread of an agent.
#[derive(Debug, PartialEq, Eq)]
pub struct ConversationKey {
    pub agent: String,
    pub conversation_id: String,
}

/// What a [`ConversationKey`] holds.
#[verifier::ext_equal]
pub struct Key {
    pub agent: Seq<char>,
    pub conversation_id: Seq<char>,
}

impl DeepView for ConversationKey {
    type V = Key;

    open spec fn deep_view(&self) -> Key {
        Key {
            agent: self.agent@,
            conversation_id: self.conversation_id@,
        }
    }
}

impl Clone for ConversationKey {
    fn clone(&self) -> (r: Self)
        ensures
            r.deep_view() == self.deep_view(),
    {
        ConversationKey {
            agent: self.agent.clone(),
            conversation_id: self.conversation_id.clone(),
        }
    }
}

impl TableKey for ConversationKey {
    fn same_key(&self, other: &Self) -> (same: bool) {
        same_text(self.agent.as_str(), other.agent.as_str()) && same_text(
            self.conversation_id.as_str(),
            other.conversation_id.as_str(),
        )
    }

    fn copy_key(&self) -> (r: Self) {
        self.clone()
    }
}

/// The latest generation of a session.
#[derive(Debug, PartialEq, Eq)]
pub struct ConversationGenerationState {
    pub participants: Vec<String>,
    pub generation: u64,
}

/// What a [`ConversationGenerationState`] holds.
#[verifier::ext_equal]
pub struct Generation {
    pub participants: Seq<Seq<char>>,
    pub generation: u64,
}

impl DeepView for ConversationGenerationState {
    type V = Generation;

    open spec fn deep_view(&self) -> Generation {
        Generation {
            participants: self.participants.deep_view(),
            generation: self.generation,
        }
    }
}

impl Clone for ConversationGenerationState {
    fn clone(&self) -> (r: Self)
        ensures
            r.deep_view() == self.deep_view(),
    {
        let participants = self.participants.clone();
        assert(participants.deep_view() =~= self.participants.deep_view());
        ConversationGenerationState {
            participants,
            generation: self.generation,
        }
    }
}

/// A shared bridge between the game and a pooled LLM runtime.
#[derive(Debug, PartialEq)]
pub struct LlmRuntimeBridge {
    pub worlds: Table<String, LlmWorldContext>,
    pub conversations: Table<ConversationKey, LlmConversationState>,
    /// The threads that a request runs in.
    pub active_conversations: Table<ConversationKey, bool>,
    /// The newest request that waits for each thread.
    pub pending_conversation_requests: Table<ConversationKey, LlmRequest>,
    /// The token that cancels the request that runs in each thread.
    pub active_cancellations: Table<ConversationKey, u64>,
    pub generated_conversations: Table<String, ConversationGenerationState>,
    /// The token that cancels the generation of each session.
    pub generated_conversation_cancellations: Table<String, u64>,
    pub turn_generation_tool_calling: LlmToolCallingMode,
    pub next_token: u64,
}

/// What a [`LlmRuntimeBridge`] holds.
#[verifier::ext_equal]
pub struct Bridge {
    pub worlds: Map<Seq<char>, WorldContext>,
    pub conversations: Map<Key, Thread>,
    pub active: Set<Key>,
    pub pending: Map<Key, Request>,
    pub cancellations: Map<Key, u64>,
    pub generated: Map<Seq<char>, Generation>,
    pub generated_cancellations: Map<Seq<char>, u64>,
    pub tool_calling: LlmToolCallingMode,
    pub next_token: u64,
}

impl DeepView for LlmRuntimeBridge {
    type V = Bridge;

    open spec fn deep_view(&self) -> Bridge {
        Bridge {
            worlds: self.worlds.deep_view(),
            conversations: self.conversations.deep_view(),
            active: self.active_conversations.deep_view().dom(),
            pending: self.pending_conversation_requests.deep_view(),
            cancellations: self.active_cancellations.deep_view(),
            generated: self.generated_conversations.deep_view(),
            generated_cancellations: self.generated_conversation_cancellations.deep_view(),
            tool_calling: self.turn_generation_tool_calling,
            next_token: self.next_token,
        }
    }
}

/// A bridge through which nothing was sent yet.
pub open spec fn at_rest(tool_calling: LlmToolCallingMode) -> Bridge {
    Bridge {
        worlds: Map::empty(),
        conversations: Map::empty(),
        active: Set::empty(),
        pending: Map::empty(),
        cancellations: Map::empty(),
        generated: Map::empty(),
        generated_cancellations: Map::empty(),
        tool_calling,
        next_token: 0,
    }
}

/// The thread that a request belongs to, if any.
pub open spec fn key_of(agent: Seq<char>, conversation_id: Option<Seq<char>>) -> Option<Key> {
    match conversation_id {
        Some(conversation_id) => Some(Key { agent, conversation_id }),
        None => None,
    }
}

fn conversation_key(agent: &String, conversation_id: &Option<String>) -> (r: Option<
    ConversationKey,
>)
    ensures
        r.deep_view() == key_of(agent@, conversation_id.deep_view()),
{
    match conversation_id {
        Some(conversation_id) => Some(
            ConversationKey { agent: agent.clone(), conversation_id: conversation_id.clone() },
        ),
        None => None,
    }
}

/// The value of a key in a table, if there is one.
pub open spec fn looked_up<K, V>(table: Map<K, V>, key: K) -> Option<V> {
    if table.dom().contains(key) {
        Some(table[key])
    } else {
        None
    }
}

/// The token after a token.
pub open spec fn token_after(token: u64) -> u64 {
    if token == u64::MAX {
        0
    } else {
        (token + 1) as u64
    }
}

/// What becomes of a request that is sent.
#[derive(Debug, PartialEq)]
pub enum Sending {
    /// It goes to a worker.
    Forward(LlmRequest),
    /// It waits for the one that runs in its thread, which is cancelled by the token that
    /// it runs under, if it runs under one.
    Park { cancel: Option<u64> },
}

/// The bridge after a request is sent.
pub open spec fn after_sending(bridge: Bridge, request: Request) -> Bridge {
    match key_of(request.agent, request.conversation_id) {
        Some(key) => if bridge.active.contains(key) {
            Bridge { pending: bridge.pending.insert(key, request), ..bridge }
        } else {
            Bridge { active: bridge.active.insert(key), ..bridge }
        },
        None => bridge,
    }
}

/// Whether a request waits when it is sent: when one runs in its thread.
pub open spec fn must_wait(bridge: Bridge, request: Request) -> bool {
    key_of(request.agent, request.conversation_id) matches Some(key) && bridge.active.contains(key)
}

/// The bridge after the world of an agent and all that belongs to the agent is gone.
pub open spec fn without_agent(bridge: Bridge, agent: Seq<char>) -> Bridge {
    Bridge {
        worlds: bridge.worlds.remove(agent),
        conversations: others_of(bridge.conversations, agent),
        active: bridge.active.filter(|key: Key| key.agent != agent),
        pending: others_of(bridge.pending, agent),
        cancellations: others_of(bridge.cancellations, agent),
        ..bridge
    }
}

/// The entries of a table that do not belong to an agent.
pub open spec fn others_of<V>(table: Map<Key, V>, agent: Seq<char>) -> Map<Key, V> {
    table.restrict(table.dom().filter(|key: Key| key.agent != agent))
}

/// The bridge after a thread is reset.
pub open spec fn after_reset(bridge: Bridge, key: Key) -> Bridge {
    Bridge {
        conversations: bridge.conversations.remove(key),
        pending: bridge.pending.remove(key),
        cancellations: bridge.cancellations.remove(key),
        ..bridge
    }
}

/// The bridge with a thread compacted on a day, if there is one of that name.
pub open spec fn after_compaction(bridge: Bridge, key: Key, today: Option<i64>) -> Bridge {
    if bridge.conversations.dom().contains(key) {
        Bridge {
            conversations: bridge.conversations.insert(
                key,
                compacted(bridge.conversations[key], today),
            ),
            ..bridge
        }
    } else {
        bridge
    }
}

/// A thread, or an empty one where there is none of that name.
pub open spec fn thread_or_empty(conversations: Map<Key, Thread>, key: Key) -> Thread {
    if conversations.dom().contains(key) {
        conversations[key]
    } else {
        empty_thread()
    }
}

/// The bridge with a notice appended to a thread.
pub open spec fn after_notice(bridge: Bridge, key: Key, message: Seq<char>) -> Bridge {
    Bridge {
        conversations: bridge.conversations.insert(
            key,
            with_entry(
                thread_or_empty(bridge.conversations, key),
                "system"@,
                message,
                LlmConversationEntryKind::Control,
                false,
            ),
        ),
        ..bridge
    }
}

/// The bridge after a command on a thread, on a day.
pub open spec fn after_command(
    bridge: Bridge,
    command: ConversationCommand,
    today: Option<i64>,
) -> Bridge {
    match command {
        ConversationCommand::Reset { agent, conversation_id } => after_reset(
            bridge,
            Key { agent, conversation_id },
        ),
        ConversationCommand::Compact { agent, conversation_id } => after_compaction(
            bridge,
            Key { agent, conversation_id },
            today,
        ),
        ConversationCommand::AppendMessage { agent, conversation_id, message } => after_notice(
            bridge,
            Key { agent, conversation_id },
            message,
        ),
    }
}

/// The bridge after the request that ran in a thread is done: the one that waits runs
/// next, and where none waits the thread is free.
pub open spec fn after_release(bridge: Bridge, key: Key) -> Bridge {
    Bridge {
        cancellations: bridge.cancellations.remove(key),
        pending: bridge.pending.remove(key),
        active: if bridge.pending.dom().contains(key) {
            bridge.active
        } else {
            bridge.active.remove(key)
        },
        ..bridge
    }
}

/// The bridge after the request that ran, in a thread or in none, is done.
pub open spec fn after_release_of(bridge: Bridge, key: Option<Key>) -> Bridge {
    match key {
        Some(key) => after_release(bridge, key),
        None => bridge,
    }
}

/// The request that runs next in a thread, if any.
pub open spec fn next_of(bridge: Bridge, key: Option<Key>) -> Option<Request> {
    match key {
        Some(key) => looked_up(bridge.pending, key),
        None => None,
    }
}

/// The threads with the facts of an agent that have expired on a day gone.
pub open spec fn expired_for(
    conversations: Map<Key, Thread>,
    agent: Seq<char>,
    today: Option<i64>,
) -> Map<Key, Thread> {
    Map::new(
        |key: Key| conversations.dom().contains(key),
        |key: Key|
            if key.agent == agent {
                without_expired(conversations[key], today)
            } else {
                conversations[key]
            },
    )
}

/// The world that a request sees: the one that it brings, or the one of its agent.
pub open spec fn world_for(bridge: Bridge, request: Request) -> Option<WorldContext> {
    match request.world_override {
        Some(world) => Some(world),
        None => looked_up(bridge.worlds, request.agent),
    }
}

/// The bridge after a request starts to run on a day: it has a token, and its thread
/// exists.
pub open spec fn after_start(bridge: Bridge, request: Request, today: Option<i64>) -> Bridge {
    match key_of(request.agent, request.conversation_id) {
        Some(key) => {
            let alive = expired_for(bridge.conversations, request.agent, today);
            Bridge {
                conversations: alive.insert(key, thread_or_empty(alive, key)),
                cancellations: if bridge.cancellations.dom().contains(key) {
                    bridge.cancellations
                } else {
                    bridge.cancellations.insert(key, bridge.next_token)
                },
                next_token: if bridge.cancellations.dom().contains(key) {
                    bridge.next_token
                } else {
                    token_after(bridge.next_token)
                },
                ..bridge
            }
        },
        None => bridge,
    }
}

/// What a request that starts has at hand.
#[derive(Debug, PartialEq)]
pub struct StandardStart {
    /// The token under which it can be cancelled.
    pub cancel: Option<u64>,
    pub world: Option<LlmWorldContext>,
    /// Its thread, whose facts are refreshed first.
    pub conversation: Option<LlmConversationState>,
}

/// What came of a refresh of facts.
#[derive(Debug, PartialEq, Eq)]
pub enum RefreshOutcome {
    Refreshed(LlmConversationState),
    Cancelled,
    /// It failed, for the given reason.
    Failed(String),
}

/// What a [`RefreshOutcome`] holds.
pub enum Refresh {
    Refreshed(Thread),
    Cancelled,
    Failed(Seq<char>),
}

impl DeepView for RefreshOutcome {
    type V = Refresh;

    open spec fn deep_view(&self) -> Refresh {
        match self {
            RefreshOutcome::Refreshed(thread) => Refresh::Refreshed(thread.deep_view()),
            RefreshOutcome::Cancelled => Refresh::Cancelled,
            RefreshOutcome::Failed(reason) => Refresh::Failed(reason@),
        }
    }
}

/// What a request does once its facts are refreshed.
#[derive(Debug, PartialEq)]
pub enum RefreshStep {
    /// It ends, and another request of its thread runs next, if one waits.
    Stop { next: Option<LlmRequest> },
    /// A turn is generated.
    Generate(TurnGenerationTask),
}

/// The bridge with the refreshed thread of a request.
pub open spec fn with_refreshed(bridge: Bridge, key: Option<Key>, refresh: Option<Refresh>) ->
    Bridge {
    match (key, refresh) {
        (Some(key), Some(Refresh::Refreshed(thread))) => Bridge {
            conversations: bridge.conversations.insert(key, thread),
            ..bridge
        },
        _ => bridge,
    }
}

/// The thread of a request after the refresh: the refreshed one, or the one it had.
pub open spec fn refreshed_thread(before: Option<Thread>, refresh: Option<Refresh>) -> Option<
    Thread,
> {
    match refresh {
        Some(Refresh::Refreshed(thread)) => Some(thread),
        _ => before,
    }
}

/// Whether a request ends after the refresh of its facts: when the refresh was cancelled,
/// or when the request itself was, which only one of a thread can be.
pub open spec fn ends_after_refresh(
    key: Option<Key>,
    refresh: Option<Refresh>,
    cancelled: bool,
) -> bool {
    (refresh matches Some(Refresh::Cancelled)) || (cancelled && key is Some)
}

/// The facts of threads merged in the given order.
pub open spec fn facts_in_order(
    conversations: Map<Key, Thread>,
    order: Seq<Key>,
    today: Option<i64>,
) -> Seq<Fact>
    decreases order.len(),
{
    if order.len() == 0 {
        seq![]
    } else {
        merged(
            facts_in_order(conversations, order.drop_last(), today),
            conversations[order.last()].facts,
            today,
        )
    }
}

/// Whether a list names the threads of an agent, each once.
pub open spec fn names_threads_of(
    conversations: Map<Key, Thread>,
    agent: Seq<char>,
    order: Seq<Key>,
) -> bool {
    &&& order.no_duplicates()
    &&& forall|key: Key| #[trigger]
        order.contains(key) <==> conversations.dom().contains(key) && key.agent == agent
}

/// Whether facts are those of the threads of an agent, merged in some order.
pub open spec fn are_facts_of(
    conversations: Map<Key, Thread>,
    agent: Seq<char>,
    today: Option<i64>,
    facts: Seq<Fact>,
) -> bool {
    exists|order: Seq<Key>| #[trigger]
        names_threads_of(conversations, agent, order) && facts == facts_in_order(
            conversations,
            order,
            today,
        )
}

/// The task of a request, but for the facts.
pub open spec fn task_for(
    request: Request,
    world: Option<WorldContext>,
    thread: Option<Thread>,
    facts: Seq<Fact>,
) -> TurnTask {
    TurnTask {
        agent: request.agent,
        conversation_id: request.conversation_id,
        prompt: request.prompt,
        response_mode: request.response_mode,
        facts,
        tools: request.tools,
        world,
        conversation: thread,
        session_participants: None,
        speaker_labels: None,
    }
}

/// What came of the generation of a turn.
#[derive(Debug, PartialEq)]
pub enum TurnOutcome {
    Generated(LlmTurn),
    Cancelled,
    /// It failed, for the given reason.
    Failed(String),
}

/// What a [`TurnOutcome`] holds.
pub enum TurnResult {
    Generated(Turn),
    Cancelled,
    Failed(Seq<char>),
}

impl DeepView for TurnOutcome {
    type V = TurnResult;

    open spec fn deep_view(&self) -> TurnResult {
        match self {
            TurnOutcome::Generated(turn) => TurnResult::Generated(turn.deep_view()),
            TurnOutcome::Cancelled => TurnResult::Cancelled,
            TurnOutcome::Failed(reason) => TurnResult::Failed(reason@),
        }
    }
}

/// What a request does once its turn is generated.
#[derive(Debug, PartialEq)]
pub enum TurnStep {
    /// It ends, and another request of its thread runs next, if one waits.
    Stop { next: Option<LlmRequest> },
    /// The turn goes to the game.
    Deliver(LlmTurn),
}

/// The turn that a request delivers: the one that was generated, or a report of the error.
pub open spec fn delivered(request: Request, result: TurnResult) -> Option<Turn> {
    match result {
        TurnResult::Generated(turn) => Some(turn),
        TurnResult::Cancelled => None,
        TurnResult::Failed(reason) => Some(
            Turn {
                agent: request.agent,
                conversation_id: request.conversation_id,
                response: error_report(reason),
                tool_calls: seq![],
            },
        ),
    }
}

/// The bridge after a turn was generated for a request: a turn that reports no error is
/// kept in the thread, and a request that was cancelled makes room for the next.
pub open spec fn after_turn(bridge: Bridge, request: Request, result: TurnResult) -> Bridge {
    let key = key_of(request.agent, request.conversation_id);
    match (delivered(request, result), key) {
        (Some(turn), Some(key)) => if is_error(turn.response) {
            bridge
        } else {
            Bridge {
                conversations: bridge.conversations.insert(
                    key,
                    with_turn(
                        thread_or_empty(bridge.conversations, key),
                        request.agent,
                        request.prompt,
                        turn.response,
                        turn.tool_calls,
                    ),
                ),
                ..bridge
            }
        },
        (Some(_), None) => bridge,
        (None, key) => after_release_of(bridge, key),
    }
}

fn remove_agent<V: DeepView>(table: &mut Table<ConversationKey, V>, agent: &str)
    ensures
        final(table).deep_view() == others_of(old(table).deep_view(), agent@),
{
    let ghost whole = table.deep_view();
    let keys = table.keys();
    let ghost names = keys.deep_view();
    let mut i: usize = 0;
    while i < keys.len()
        invariant
            i <= keys.len(),
            names == keys.deep_view(),
            forall|key: Key| #[trigger] names.contains(key) <==> whole.dom().contains(key),
            table.deep_view().submap_of(whole),
            forall|key: Key| #[trigger]
                table.deep_view().dom().contains(key) <==> whole.dom().contains(key) && !(key.agent
                    == agent@ && names.take(i as int).contains(key)),
        decreases keys.len() - i,
    {
        let ghost before = table.deep_view();
        let ghost name = names[i as int];
        assert(name == keys@[i as int].deep_view());
        let ghost done = names.take(i as int);
        let ghost more = names.take(i + 1);
        assert(more =~= done.push(name));
        assert forall|key: Key| #[trigger] more.contains(key) <==> done.contains(key) || key
            == name by {
            if done.contains(key) {
                let k = choose|k: int| 0 <= k < done.len() && done[k] == key;
                assert(more[k] == key);
            }
            assert(more[i as int] == name);
            if more.contains(key) && key != name {
                let k = choose|k: int| 0 <= k < more.len() && more[k] == key;
                assert(done[k] == key);
            }
        }
        if same_text(keys[i].agent.as_str(), agent) {
            table.remove(&keys[i]);
            assert(table.deep_view() == before.remove(name));
        }
        i = i + 1;
    }
    assert(names.take(names.len() as int) =~= names);
    assert(table.deep_view() =~= others_of(whole, agent@));
}

impl LlmRuntimeBridge {
    /// A bridge at rest, whose generated conversations call tools in the given format.
    pub fn new(turn_generation_tool_calling: LlmToolCallingMode) -> (r: Self)
        ensures
            r.deep_view() == at_rest(turn_generation_tool_calling),
    {
        let r = LlmRuntimeBridge {
            worlds: Table::new(),
            conversations: Table::new(),
            active_conversations: Table::new(),
            pending_conversation_requests: Table::new(),
            active_cancellations: Table::new(),
            generated_conversations: Table::new(),
            generated_conversation_cancellations: Table::new(),
            turn_generation_tool_calling,
            next_token: 0,
        };
        assert(r.deep_view().active =~= Set::empty());
        r
    }

    pub(crate) fn take_token(&mut self) -> (token: u64)
        ensures
            token == old(self).next_token,
            final(self).deep_view() == (Bridge {
                next_token: token_after(token),
                ..old(self).deep_view()
            }),
    {
        let token: u64 = self.next_token;
        self.next_token = token.wrapping_add(1);
        token
    }

    /// Sends a request. One for a thread in which another runs waits for that one, and
    /// takes the place of one that waited before.
    pub fn send(&mut self, request: LlmRequest) -> (sending: Sending)
        ensures
            final(self).deep_view() == after_sending(old(self).deep_view(), request.deep_view()),
            match sending {
                Sending::Forward(forwarded) => !must_wait(
                    old(self).deep_view(),
                    request.deep_view(),
                ) && forwarded == request,
                Sending::Park { cancel } => must_wait(old(self).deep_view(), request.deep_view())
                    && cancel == looked_up(
                    old(self).deep_view().cancellations,
                    key_of(
                        request.deep_view().agent,
                        request.deep_view().conversation_id,
                    )->0,
                ),
            },
    {
        let key = match conversation_key(&request.agent, &request.conversation_id) {
            Some(key) => key,
            None => {
                return Sending::Forward(request);
            },
        };
        if self.active_conversations.contains_key(&key) {
            let cancel = match self.active_cancellations.get(&key) {
                Some(token) => Some(*token),
                None => None,
            };
            self.pending_conversation_requests.insert(key, request);
            Sending::Park { cancel }
        } else {
            let ghost before = self.deep_view().active;
            self.active_conversations.insert(key, true);
            assert(self.deep_view().active =~= before.insert(key.deep_view()));
            Sending::Forward(request)
        }
    }

    /// Replaces the world of an agent.
    pub fn set_world(&mut self, agent: String, world: LlmWorldContext)
        ensures
            final(self).deep_view() == (Bridge {
                worlds: old(self).deep_view().worlds.insert(agent@, world.deep_view()),
                ..old(self).deep_view()
            }),
    {
        self.worlds.insert(agent, world);
    }

    /// Clears the world of an agent, and all that belongs to the agent.
    pub fn clear_world(&mut self, agent: String)
        ensures
            final(self).deep_view() == without_agent(old(self).deep_view(), agent@),
    {
        let ghost before = self.deep_view();
        self.worlds.remove(&agent);
        remove_agent(&mut self.conversations, agent.as_str());
        remove_agent(&mut self.active_conversations, agent.as_str());
        remove_agent(&mut self.active_cancellations, agent.as_str());
        remove_agent(&mut self.pending_conversation_requests, agent.as_str());
        assert(self.deep_view().active =~= without_agent(before, agent@).active);
    }

    /// Resets a named thread of an agent: its history is gone, and so is the request that
    /// waits for it.
    pub fn reset_conversation(&mut self, agent: String, conversation_id: String)
        ensures
            final(self).deep_view() == after_reset(
                old(self).deep_view(),
                Key { agent: agent@, conversation_id: conversation_id@ },
            ),
    {
        let key = ConversationKey { agent, conversation_id };
        self.conversations.remove(&key);
        self.pending_conversation_requests.remove(&key);
        self.active_cancellations.remove(&key);
    }

    /// Compacts a named thread of an agent, on a day.
    pub fn compact_conversation_on(
        &mut self,
        agent: String,
        conversation_id: String,
        today: Option<i64>,
    )
        ensures
            final(self).deep_view() == after_compaction(
                old(self).deep_view(),
                Key { agent: agent@, conversation_id: conversation_id@ },
                today,
            ),
    {
        let ghost before = self.deep_view();
        let key = ConversationKey { agent, conversation_id };
        if let Some(thread) = self.conversations.remove(&key) {
            let mut thread = thread;
            compact_conversation_state_on(&mut thread, today);
            self.conversations.insert(key, thread);
            assert(self.deep_view().conversations =~= after_compaction(
                before,
                key.deep_view(),
                today,
            ).conversations);
        } else {
            assert(self.deep_view().conversations =~= before.conversations);
        }
    }

    /// Compacts a named thread of an agent.
    pub fn compact_conversation(&mut self, agent: String, conversation_id: String)
        ensures
            exists|now: std::time::SystemTime| #[trigger]
                call_ensures(std::time::SystemTime::now, (), now) && final(self).deep_view()
                    == after_compaction(
                    old(self).deep_view(),
                    Key { agent: agent@, conversation_id: conversation_id@ },
                    day_at(now),
                ),
    {
        let today = current_utc_days_since_epoch();
        self.compact_conversation_on(agent, conversation_id, today);
    }

    /// Appends a notice to a named thread of an agent.
    pub fn append_conversation_message(
        &mut self,
        agent: String,
        conversation_id: String,
        message: String,
    )
        ensures
            final(self).deep_view() == after_notice(
                old(self).deep_view(),
                Key { agent: agent@, conversation_id: conversation_id@ },
                message@,
            ),
    {
        let ghost before = self.deep_view();
        let key = ConversationKey { agent, conversation_id };
        let mut thread = match self.conversations.remove(&key) {
            Some(thread) => thread,
            None => LlmConversationState::default(),
        };
        append_conversation_control(&mut thread, message);
        self.conversations.insert(key, thread);
        assert(self.deep_view().conversations =~= after_notice(
            before,
            key.deep_view(),
            message@,
        ).conversations);
    }

    /// Carries out a command on a thread, on a day.
    pub fn handle_conversation_command_on(
        &mut self,
        command: LlmConversationCommand,
        today: Option<i64>,
    )
        ensures
            final(self).deep_view() == after_command(
                old(self).deep_view(),
                command.deep_view(),
                today,
            ),
    {
        match command {
            LlmConversationCommand::Reset { agent, conversation_id } => {
                self.reset_conversation(agent, conversation_id);
            },
            LlmConversationCommand::Compact { agent, conversation_id } => {
                self.compact_conversation_on(agent, conversation_id, today);
            },
            LlmConversationCommand::AppendMessage { agent, conversation_id, message } => {
                self.append_conversation_message(agent, conversation_id, message);
            },
        }
    }

    /// Carries out a command on a thread.
    pub fn handle_conversation_command(&mut self, command: LlmConversationCommand)
        ensures
            exists|now: std::time::SystemTime| #[trigger]
                call_ensures(std::time::SystemTime::now, (), now) && final(self).deep_view()
                    == after_command(old(self).deep_view(), command.deep_view(), day_at(now)),
    {
        let today = current_utc_days_since_epoch();
        self.handle_conversation_command_on(command, today);
    }

    /// A copy of a named thread of an agent.
    pub fn conversation_state(&self, agent: &str, conversation_id: &str) -> (r: Option<
        LlmConversationState,
    >)
        ensures
            r.deep_view() == looked_up(
                self.deep_view().conversations,
                Key { agent: agent@, conversation_id: conversation_id@ },
            ),
    {
        let key = ConversationKey {
            agent: agent.to_string(),
            conversation_id: conversation_id.to_string(),
        };
        match self.conversations.get(&key) {
            Some(thread) => Some(thread.clone()),
            None => None,
        }
    }

    fn release(&mut self, key: &Option<ConversationKey>) -> (next: Option<LlmRequest>)
        ensures
            final(self).deep_view() == after_release_of(old(self).deep_view(), key.deep_view()),
            next.deep_view() == next_of(old(self).deep_view(), key.deep_view()),
    {
        let ghost before = self.deep_view();
        match key {
            Some(key) => {
                self.active_cancellations.remove(key);
                let next = self.pending_conversation_requests.remove(key);
                if next.is_none() {
                    self.active_conversations.remove(key);
                    assert(self.deep_view().active =~= before.active.remove(key.deep_view()));
                }
                next
            },
            None => None,
        }
    }

    /// Makes room for the next request of the thread of a turn that was delivered, and
    /// gives that request, if one waits.
    pub fn release_next_conversation_request(&mut self, turn: &LlmTurn) -> (next: Option<
        LlmRequest,
    >)
        ensures
            final(self).deep_view() == after_release_of(
                old(self).deep_view(),
                key_of(turn.deep_view().agent, turn.deep_view().conversation_id),
            ),
            next.deep_view() == next_of(
                old(self).deep_view(),
                key_of(turn.deep_view().agent, turn.deep_view().conversation_id),
            ),
    {
        let key = conversation_key(&turn.agent, &turn.conversation_id);
        self.release(&key)
    }

    fn expire_for(&mut self, agent: &str, today: Option<i64>)
        ensures
            final(self).deep_view() == (Bridge {
                conversations: expired_for(old(self).deep_view().conversations, agent@, today),
                ..old(self).deep_view()
            }),
    {
        let ghost whole = self.conversations.deep_view();
        let keys = self.conversations.keys();
        let ghost names = keys.deep_view();
        let mut i: usize = 0;
        while i < keys.len()
            invariant
                i <= keys.len(),
                whole == old(self).deep_view().conversations,
                self.deep_view() == (Bridge {
                    conversations: self.deep_view().conversations,
                    ..old(self).deep_view()
                }),
                names == keys.deep_view(),
                names.no_duplicates(),
                forall|key: Key| #[trigger] names.contains(key) <==> whole.dom().contains(key),
                self.conversations.deep_view().dom() == whole.dom(),
                forall|k: int|
                    0 <= k < i ==> self.conversations.deep_view()[#[trigger] names[k]]
                        == expired_for(whole, agent@, today)[names[k]],
                forall|k: int|
                    i <= k < names.len() ==> self.conversations.deep_view()[#[trigger] names[k]]
                        == whole[names[k]],
            decreases keys.len() - i,
        {
            let ghost name = names[i as int];
            assert(name == keys@[i as int].deep_view());
            assert(names.contains(name));
            let ghost before = self.conversations.deep_view();
            if same_text(keys[i].agent.as_str(), agent) {
                if let Some(thread) = self.conversations.remove(&keys[i]) {
                    let mut thread = thread;
                    expire_conversation_facts_on(&mut thread, today);
                    self.conversations.insert(keys[i].clone(), thread);
                    assert(self.conversations.deep_view() =~= before.insert(
                        name,
                        without_expired(before[name], today),
                    ));
                }
            }
            assert(self.conversations.deep_view().dom() =~= whole.dom());
            assert forall|k: int| 0 <= k < i + 1 implies self.conversations.deep_view()[#[trigger]
            names[k]] == expired_for(whole, agent@, today)[names[k]] by {
                assert(names.contains(names[k]));
                if k < i {
                    assert(names[k] != name);
                }
            }
            assert forall|k: int| i + 1 <= k < names.len() implies self.conversations.deep_view()[
            #[trigger] names[k]] == whole[names[k]] by {
                assert(names[k] != name);
            }
            i = i + 1;
        }
        assert(self.conversations.deep_view() =~= expired_for(whole, agent@, today)) by {
            assert forall|key: Key| whole.dom().contains(key) implies #[trigger]
                self.conversations.deep_view()[key] == expired_for(whole, agent@, today)[key] by {
                assert(names.contains(key));
                let k = choose|k: int| 0 <= k < names.len() && names[k] == key;
                assert(names[k] == key);
            }
        }
    }

    /// Starts a request, on a day, and gives what it has at hand.
    pub fn start_request(&mut self, request: &LlmRequest, today: Option<i64>) -> (start:
        StandardStart)
        ensures
            final(self).deep_view() == after_start(
                old(self).deep_view(),
                request.deep_view(),
                today,
            ),
            start.world.deep_view() == world_for(old(self).deep_view(), request.deep_view()),
            match key_of(request.deep_view().agent, request.deep_view().conversation_id) {
                Some(key) => {
                    &&& start.cancel == Some(final(self).deep_view().cancellations[key])
                    &&& start.conversation.deep_view() == Some(
                        final(self).deep_view().conversations[key],
                    )
                },
                None => start.cancel is None && start.conversation is None,
            },
    {
        let ghost first = self.deep_view();
        let world = match &request.world_override {
            Some(world) => Some(world.clone()),
            None => match self.worlds.get(&request.agent) {
                Some(world) => Some(world.clone()),
                None => None,
            },
        };
        let key = match conversation_key(&request.agent, &request.conversation_id) {
            Some(key) => key,
            None => {
                return StandardStart { cancel: None, world, conversation: None };
            },
        };
        let token: u64 = match self.active_cancellations.get(&key) {
            Some(token) => *token,
            None => {
                let token: u64 = self.take_token();
                self.active_cancellations.insert(key.clone(), token);
                token
            },
        };
        self.expire_for(request.agent.as_str(), today);
        let ghost alive = self.deep_view().conversations;
        let thread = match self.conversations.remove(&key) {
            Some(thread) => thread,
            None => LlmConversationState::default(),
        };
        let conversation = thread.clone();
        self.conversations.insert(key, thread);
        assert(self.deep_view().conversations =~= alive.insert(
            key.deep_view(),
            thread_or_empty(alive, key.deep_view()),
        ));
        StandardStart { cancel: Some(token), world, conversation: Some(conversation) }
    }

    /// The facts of the threads of an agent, merged on a day.
    pub fn collect_agent_facts_on(&self, agent: &str, today: Option<i64>) -> (r: Vec<
        LlmConversationFact,
    >)
        ensures
            are_facts_of(self.deep_view().conversations, agent@, today, r.deep_view()),
    {
        let ghost whole = self.conversations.deep_view();
        let keys = self.conversations.keys();
        let ghost names = keys.deep_view();
        let ghost mut order: Seq<Key> = seq![];
        let mut facts: Vec<LlmConversationFact> = Vec::new();
        let mut i: usize = 0;
        assert(facts.deep_view() =~= seq![]);
        while i < keys.len()
            invariant
                i <= keys.len(),
                whole == self.conversations.deep_view(),
                names == keys.deep_view(),
                names.no_duplicates(),
                forall|key: Key| #[trigger] names.contains(key) <==> whole.dom().contains(key),
                order.no_duplicates(),
                forall|key: Key| #[trigger]
                    order.contains(key) <==> names.take(i as int).contains(key) && key.agent
                        == agent@,
                facts.deep_view() == facts_in_order(whole, order, today),
            decreases keys.len() - i,
        {
            let ghost name = names[i as int];
            assert(name == keys@[i as int].deep_view());
            assert(names.contains(name));
            let ghost done = names.take(i as int);
            let ghost more = names.take(i + 1);
            assert(more =~= done.push(name));
            assert(!done.contains(name));
            assert forall|key: Key| #[trigger] more.contains(key) <==> done.contains(key) || key
                == name by {
                if done.contains(key) {
                    let k = choose|k: int| 0 <= k < done.len() && done[k] == key;
                    assert(more[k] == key);
                }
                assert(more[i as int] == name);
                if more.contains(key) && key != name {
                    let k = choose|k: int| 0 <= k < more.len() && more[k] == key;
                    assert(done[k] == key);
                }
            }
            if same_text(keys[i].agent.as_str(), agent) {
                if let Some(thread) = self.conversations.get(&keys[i]) {
                    let incoming = thread.facts.clone();
                    assert(incoming.deep_view() =~= whole[name].facts);
                    merge_conversation_facts_on(&mut facts, incoming, today);
                    proof {
                        let before = order;
                        assert(!before.contains(name));
                        order = before.push(name);
                        assert(order.no_duplicates());
                        assert(order.drop_last() =~= before);
                        assert forall|key: Key| #[trigger]
                            order.contains(key) <==> more.contains(key) && key.agent == agent@ by {
                            if before.contains(key) {
                                let k = choose|k: int| 0 <= k < before.len() && before[k] == key;
                                assert(order[k] == key);
                            }
                            assert(order[before.len() as int] == name);
                            if order.contains(key) && key != name {
                                let k = choose|k: int| 0 <= k < order.len() && order[k] == key;
                                assert(before[k] == key);
                            }
                        }
                    }
                }
            }
            i = i + 1;
        }
        assert(names.take(names.len() as int) =~= names);
        assert(names_threads_of(whole, agent@, order));
        facts
    }

    /// Takes in what came of the refresh of the facts of a request, and whether the
    /// request has been cancelled since, on a day. Without a thread there is no refresh.
    pub fn after_refresh(
        &mut self,
        request: &LlmRequest,
        start: StandardStart,
        refresh: Option<RefreshOutcome>,
        cancelled: bool,
        today: Option<i64>,
    ) -> (step: RefreshStep)
        ensures
            ({
                let key = key_of(request.deep_view().agent, request.deep_view().conversation_id);
                let refreshed = with_refreshed(old(self).deep_view(), key, refresh.deep_view());
                if ends_after_refresh(key, refresh.deep_view(), cancelled) {
                    &&& final(self).deep_view() == after_release_of(refreshed, key)
                    &&& step matches RefreshStep::Stop { next } && next.deep_view() == next_of(
                        refreshed,
                        key,
                    )
                } else {
                    &&& final(self).deep_view() == refreshed
                    &&& step matches RefreshStep::Generate(task) && task.deep_view() == task_for(
                        request.deep_view(),
                        start.world.deep_view(),
                        refreshed_thread(start.conversation.deep_view(), refresh.deep_view()),
                        task.deep_view().facts,
                    ) && are_facts_of(
                        refreshed.conversations,
                        request.deep_view().agent,
                        today,
                        task.deep_view().facts,
                    )
                }
            }),
            step matches RefreshStep::Generate(task) ==> {
                &&& task.agent@ == request.agent@
                &&& task.conversation_id.deep_view() == request.conversation_id.deep_view()
                &&& task.prompt@ == request.prompt@
                &&& task.response_mode == request.response_mode
                &&& task.tools.deep_view() == request.tools.deep_view()
                &&& task.world.deep_view() == start.world.deep_view()
            },
    {
        let key = conversation_key(&request.agent, &request.conversation_id);
        let mut conversation = start.conversation;
        match refresh {
            Some(RefreshOutcome::Refreshed(thread)) => {
                if let Some(key) = &key {
                    self.conversations.insert(key.clone(), thread.clone());
                }
                conversation = Some(thread);
            },
            Some(RefreshOutcome::Cancelled) => {
                let next = self.release(&key);
                return RefreshStep::Stop { next };
            },
            Some(RefreshOutcome::Failed(_)) => {},
            None => {},
        }
        if cancelled && key.is_some() {
            let next = self.release(&key);
            return RefreshStep::Stop { next };
        }
        let facts = self.collect_agent_facts_on(request.agent.as_str(), today);
        let tools = request.tools.clone();
        assert(tools.deep_view() =~= request.tools.deep_view());
        let task = TurnGenerationTask {
            agent: request.agent.clone(),
            conversation_id: request.conversation_id.clone(),
            prompt: request.prompt.clone(),
            response_mode: request.response_mode,
            facts,
            tools,
            world: start.world,
            conversation,
            session_participants: None,
            speaker_labels: None,
        };
        RefreshStep::Generate(task)
    }

    /// Takes in what came of the generation of the turn of a request.
    pub fn after_turn(&mut self, request: &LlmRequest, result: TurnOutcome) -> (step: TurnStep)
        ensures
            final(self).deep_view() == after_turn(
                old(self).deep_view(),
                request.deep_view(),
                result.deep_view(),
            ),
            match step {
                TurnStep::Stop { next } => delivered(request.deep_view(), result.deep_view()) is None
                    && next.deep_view() == next_of(
                    old(self).deep_view(),
                    key_of(request.deep_view().agent, request.deep_view().conversation_id),
                ),
                TurnStep::Deliver(turn) => delivered(request.deep_view(), result.deep_view())
                    == Some(turn.deep_view()),
            },
    {
        let ghost before = self.deep_view();
        let key = conversation_key(&request.agent, &request.conversation_id);
        let turn = match result {
            TurnOutcome::Generated(turn) => turn,
            TurnOutcome::Cancelled => {
                let next = self.release(&key);
                return TurnStep::Stop { next };
            },
            TurnOutcome::Failed(reason) => {
                let turn = LlmTurn {
                    agent: request.agent.clone(),
                    conversation_id: request.conversation_id.clone(),
                    response: report_error(reason.as_str()),
                    tool_calls: Vec::new(),
                };
                assert(turn.deep_view().tool_calls =~= seq![]);
                turn
            },
        };
        if let Some(key) = key {
            if !is_llm_error_response(turn.response.as_str()) {
                let mut thread = match self.conversations.remove(&key) {
                    Some(thread) => thread,
                    None => LlmConversationState::default(),
                };
                append_conversation_turn(
                    &mut thread,
                    request.agent.as_str(),
                    request.prompt.as_str(),
                    turn.response.as_str(),
                    turn.tool_calls.as_slice(),
                );
                self.conversations.insert(key, thread);
                assert(self.deep_view().conversations =~= after_turn(
                    before,
                    request.deep_view(),
                    result.deep_view(),
                ).conversations);
            }
        }
        TurnStep::Deliver(turn)
    }
}

} // verus!
