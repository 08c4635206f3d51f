//! The data that requests, replies and conversations are made of.

use crate::importance::Importance;
use crate::json::{content, Json};
use vstd::prelude::*;

verus! {

/// The form in which a reply is expected.
#[derive(Debug, Clone, Copy, PartialEq, Eq, Structural)]
pub enum LlmResponseMode {
    /// Structured JSON for tool-capable or machine-parsed flows.
    StructuredJson,
    /// Plain text for local world-facing speech.
    PlainTextChat,
}

impl Default for LlmResponseMode {
    fn default() -> (r: Self)
        ensures
            r == LlmResponseMode::StructuredJson,
    {
        LlmResponseMode::StructuredJson
    }
}

/// Entry categories used for prompt rendering and fact extraction.
#[derive(Debug, Clone, Copy, PartialEq, Eq, Structural)]
pub enum LlmConversationEntryKind {
    Chat,
    Control,
    Prompt,
    Response,
    ToolCall,
}

/// A tool definition exposed to an LLM request.
#[derive(Debug, PartialEq)]
pub struct LlmToolDefinition {
    pub name: String,
    pub description: String,
    pub parameters: serde_json::Value,
}

/// What a [`LlmToolDefinition`] holds.
#[verifier::ext_equal]
pub struct ToolDefinition {
    pub name: Seq<char>,
    pub description: Seq<char>,
    pub parameters: Json,
}

impl DeepView for LlmToolDefinition {
    type V = ToolDefinition;

    open spec fn deep_view(&self) -> ToolDefinition {
        ToolDefinition {
            name: self.name@,
            description: self.description@,
            parameters: content(self.parameters),
        }
    }
}

impl Clone for LlmToolDefinition {
    fn clone(&self) -> (r: Self)
        ensures
            r.deep_view() == self.deep_view(),
    {
        LlmToolDefinition {
            name: self.name.clone(),
            description: self.description.clone(),
            parameters: self.parameters.clone(),
        }
    }
}

impl LlmToolDefinition {
    pub fn new(name: String, description: String, parameters: serde_json::Value) -> (r: Self)
        ensures
            r.deep_view() == (ToolDefinition {
                name: name@,
                description: description@,
                parameters: content(parameters),
            }),
    {
        LlmToolDefinition { name, description, parameters }
    }
}

/// A tool call emitted by the model.
#[derive(Debug, PartialEq)]
pub struct LlmToolCall {
    /// Tool name requested by the model.
    pub tool: String,
    /// JSON arguments for the tool.
    pub arguments: serde_json::Value,
}

/// What a [`LlmToolCall`] holds.
#[verifier::ext_equal]
pub struct ToolCall {
    pub tool: Seq<char>,
    pub arguments: Json,
}

impl DeepView for LlmToolCall {
    type V = ToolCall;

    open spec fn deep_view(&self) -> ToolCall {
        ToolCall {
            tool: self.tool@,
            arguments: content(self.arguments),
        }
    }
}

impl Clone for LlmToolCall {
    fn clone(&self) -> (r: Self)
        ensures
            r.deep_view() == self.deep_view(),
    {
        LlmToolCall {
            tool: self.tool.clone(),
            arguments: self.arguments.clone(),
        }
    }
}

/// A structured response from the model.
#[derive(Debug, PartialEq)]
pub struct LlmTurn {
    /// Agent identifier associated with the turn.
    pub agent: String,
    /// Optional conversation thread identifier associated with the turn.
    pub conversation_id: Option<String>,
    /// Text response from the model.
    pub response: String,
    /// Tool calls captured from the model.
    pub tool_calls: Vec<LlmToolCall>,
}

/// What a [`LlmTurn`] holds.
#[verifier::ext_equal]
pub struct Turn {
    pub agent: Seq<char>,
    pub conversation_id: Option<Seq<char>>,
    pub response: Seq<char>,
    pub tool_calls: Seq<ToolCall>,
}

impl DeepView for LlmTurn {
    type V = Turn;

    open spec fn deep_view(&self) -> Turn {
        Turn {
            agent: self.agent@,
            conversation_id: self.conversation_id.deep_view(),
            response: self.response@,
            tool_calls: self.tool_calls.deep_view(),
        }
    }
}

impl Clone for LlmTurn {
    fn clone(&self) -> (r: Self)
        ensures
            r.deep_view() == self.deep_view(),
    {
        let tool_calls = self.tool_calls.clone();
        assert(tool_calls.deep_view() =~= self.tool_calls.deep_view());
        LlmTurn {
            agent: self.agent.clone(),
            conversation_id: self.conversation_id.clone(),
            response: self.response.clone(),
            tool_calls,
        }
    }
}

/// A durable fact extracted from conversation history.
#[derive(Debug, PartialEq, Eq)]
pub struct LlmConversationFact {
    pub fact: String,
    pub importance: Importance,
    pub expiry: String,
}

/// What a [`LlmConversationFact`] holds.
#[verifier::ext_equal]
pub struct Fact {
    pub fact: Seq<char>,
    pub importance: Importance,
    pub expiry: Seq<char>,
}

impl DeepView for LlmConversationFact {
    type V = Fact;

    open spec fn deep_view(&self) -> Fact {
        Fact {
            fact: self.fact@,
            importance: self.importance,
            expiry: self.expiry@,
        }
    }
}

impl Clone for LlmConversationFact {
    fn clone(&self) -> (r: Self)
        ensures
            r.deep_view() == self.deep_view(),
    {
        LlmConversationFact {
            fact: self.fact.clone(),
            importance: self.importance,
            expiry: self.expiry.clone(),
        }
    }
}

/// A structured conversation entry.
#[derive(Debug, PartialEq, Eq)]
pub struct LlmConversationEntry {
    pub speaker: String,
    pub text: String,
    pub kind: LlmConversationEntryKind,
    pub extractable: bool,
    pub sequence: u64,
}

/// What a [`LlmConversationEntry`] holds.
#[verifier::ext_equal]
pub struct Entry {
    pub speaker: Seq<char>,
    pub text: Seq<char>,
    pub kind: LlmConversationEntryKind,
    pub extractable: bool,
    pub sequence: u64,
}

impl DeepView for LlmConversationEntry {
    type V = Entry;

    open spec fn deep_view(&self) -> Entry {
        Entry {
            speaker: self.speaker@,
            text: self.text@,
            kind: self.kind,
            extractable: self.extractable,
            sequence: self.sequence,
        }
    }
}

impl Clone for LlmConversationEntry {
    fn clone(&self) -> (r: Self)
        ensures
            r.deep_view() == self.deep_view(),
    {
        LlmConversationEntry {
            speaker: self.speaker.clone(),
            text: self.text.clone(),
            kind: self.kind,
            extractable: self.extractable,
            sequence: self.sequence,
        }
    }
}

/// Stored turn history for a named conversation thread.
#[derive(Debug, PartialEq, Eq)]
pub struct LlmConversationState {
    pub facts: Vec<LlmConversationFact>,
    pub entries: Vec<LlmConversationEntry>,
    pub processed_entry_count: usize,
    pub next_entry_sequence: u64,
}

/// What a [`LlmConversationState`] holds.
#[verifier::ext_equal]
pub struct Thread {
    pub facts: Seq<Fact>,
    pub entries: Seq<Entry>,
    pub processed_entry_count: usize,
    pub next_entry_sequence: u64,
}

impl DeepView for LlmConversationState {
    type V = Thread;

    open spec fn deep_view(&self) -> Thread {
        Thread {
            facts: self.facts.deep_view(),
            entries: self.entries.deep_view(),
            processed_entry_count: self.processed_entry_count,
            next_entry_sequence: self.next_entry_sequence,
        }
    }
}

impl Clone for LlmConversationState {
    fn clone(&self) -> (r: Self)
        ensures
            r.deep_view() == self.deep_view(),
    {
        let facts = self.facts.clone();
        assert(facts.deep_view() =~= self.facts.deep_view());
        let entries = self.entries.clone();
        assert(entries.deep_view() =~= self.entries.deep_view());
        LlmConversationState {
            facts,
            entries,
            processed_entry_count: self.processed_entry_count,
            next_entry_sequence: self.next_entry_sequence,
        }
    }
}

/// A thread in which nothing has been said.
pub open spec fn empty_thread() -> Thread {
    Thread { facts: seq![], entries: seq![], processed_entry_count: 0, next_entry_sequence: 0 }
}

impl Default for LlmConversationState {
    fn default() -> (r: Self)
        ensures
            r.deep_view() == empty_thread(),
    {
        let r = LlmConversationState {
            facts: Vec::new(),
            entries: Vec::new(),
            processed_entry_count: 0,
            next_entry_sequence: 0,
        };
        assert(r.deep_view() =~= empty_thread());
        r
    }
}

/// Normalized world payload.
#[derive(Debug, PartialEq)]
pub struct LlmWorldContext {
    pub world_view: serde_json::Value,
    pub world_schema: serde_json::Value,
}

/// What a [`LlmWorldContext`] holds.
#[verifier::ext_equal]
pub struct WorldContext {
    pub world_view: Json,
    pub world_schema: Json,
}

impl DeepView for LlmWorldContext {
    type V = WorldContext;

    open spec fn deep_view(&self) -> WorldContext {
        WorldContext {
            world_view: content(self.world_view),
            world_schema: content(self.world_schema),
        }
    }
}

impl Clone for LlmWorldContext {
    fn clone(&self) -> (r: Self)
        ensures
            r.deep_view() == self.deep_view(),
    {
        LlmWorldContext {
            world_view: self.world_view.clone(),
            world_schema: self.world_schema.clone(),
        }
    }
}

/// A request from the game to an LLM agent.
#[derive(Debug, PartialEq)]
pub struct LlmRequest {
    /// Logical agent identifier.
    pub agent: String,
    /// Optional conversation thread identifier. `None` means stateless.
    pub conversation_id: Option<String>,
    /// Optional request-scoped world context override.
    ///
    /// When present, this replaces the stored per-agent world snapshot for this
    /// request only. This is useful for task-specific reduced views.
    pub world_override: Option<LlmWorldContext>,
    /// Prompt text to send to the agent.
    pub prompt: String,
    /// Output format expected from the model.
    pub response_mode: LlmResponseMode,
    /// Tool definitions exposed to the model for this request.
    pub tools: Vec<LlmToolDefinition>,
}

/// What a [`LlmRequest`] holds.
#[verifier::ext_equal]
pub struct Request {
    pub agent: Seq<char>,
    pub conversation_id: Option<Seq<char>>,
    pub world_override: Option<WorldContext>,
    pub prompt: Seq<char>,
    pub response_mode: LlmResponseMode,
    pub tools: Seq<ToolDefinition>,
}

impl DeepView for LlmRequest {
    type V = Request;

    open spec fn deep_view(&self) -> Request {
        Request {
            agent: self.agent@,
            conversation_id: self.conversation_id.deep_view(),
            world_override: self.world_override.deep_view(),
            prompt: self.prompt@,
            response_mode: self.response_mode,
            tools: self.tools.deep_view(),
        }
    }
}

impl Clone for LlmRequest {
    fn clone(&self) -> (r: Self)
        ensures
            r.deep_view() == self.deep_view(),
    {
        let tools = self.tools.clone();
        assert(tools.deep_view() =~= self.tools.deep_view());
        LlmRequest {
            agent: self.agent.clone(),
            conversation_id: self.conversation_id.clone(),
            world_override: self.world_override.clone(),
            prompt: self.prompt.clone(),
            response_mode: self.response_mode,
            tools,
        }
    }
}

/// A message returned by the LLM worker.
#[derive(Debug, PartialEq)]
pub struct LlmResponse {
    /// Logical agent identifier.
    pub agent: String,
    /// Optional conversation thread identifier associated with the response.
    pub conversation_id: Option<String>,
    /// Text returned by the model, if any.
    pub response: Option<String>,
    /// All tool calls captured from the model output.
    pub tool_calls: Vec<LlmToolCall>,
}

/// What a [`LlmResponse`] holds.
#[verifier::ext_equal]
pub struct Response {
    pub agent: Seq<char>,
    pub conversation_id: Option<Seq<char>>,
    pub response: Option<Seq<char>>,
    pub tool_calls: Seq<ToolCall>,
}

impl DeepView for LlmResponse {
    type V = Response;

    open spec fn deep_view(&self) -> Response {
        Response {
            agent: self.agent@,
            conversation_id: self.conversation_id.deep_view(),
            response: self.response.deep_view(),
            tool_calls: self.tool_calls.deep_view(),
        }
    }
}

impl Clone for LlmResponse {
    fn clone(&self) -> (r: Self)
        ensures
            r.deep_view() == self.deep_view(),
    {
        let tool_calls = self.tool_calls.clone();
        assert(tool_calls.deep_view() =~= self.tool_calls.deep_view());
        LlmResponse {
            agent: self.agent.clone(),
            conversation_id: self.conversation_id.clone(),
            response: self.response.clone(),
            tool_calls,
        }
    }
}

/// Planned conversation utterance for playback.
#[derive(Debug, PartialEq)]
pub struct PlannedUtterance {
    pub speaker: String,
    pub text: String,
    pub tool_calls: Vec<LlmToolCall>,
}

/// What a [`PlannedUtterance`] holds.
#[verifier::ext_equal]
pub struct Utterance {
    pub speaker: Seq<char>,
    pub text: Seq<char>,
    pub tool_calls: Seq<ToolCall>,
}

impl DeepView for PlannedUtterance {
    type V = Utterance;

    open spec fn deep_view(&self) -> Utterance {
        Utterance {
            speaker: self.speaker@,
            text: self.text@,
            tool_calls: self.tool_calls.deep_view(),
        }
    }
}

impl Clone for PlannedUtterance {
    fn clone(&self) -> (r: Self)
        ensures
            r.deep_view() == self.deep_view(),
    {
        let tool_calls = self.tool_calls.clone();
        assert(tool_calls.deep_view() =~= self.tool_calls.deep_view());
        PlannedUtterance {
            speaker: self.speaker.clone(),
            text: self.text.clone(),
            tool_calls,
        }
    }
}

/// Full generated conversation transcript for playback.
#[derive(Debug, PartialEq)]
pub struct GeneratedConversation {
    pub session_id: String,
    pub participants: Vec<String>,
    pub utterances: Vec<PlannedUtterance>,
}

/// What a [`GeneratedConversation`] holds.
#[verifier::ext_equal]
pub struct Transcript {
    pub session_id: Seq<char>,
    pub participants: Seq<Seq<char>>,
    pub utterances: Seq<Utterance>,
}

impl DeepView for GeneratedConversation {
    type V = Transcript;

    open spec fn deep_view(&self) -> Transcript {
        Transcript {
            session_id: self.session_id@,
            participants: self.participants.deep_view(),
            utterances: self.utterances.deep_view(),
        }
    }
}

impl Clone for GeneratedConversation {
    fn clone(&self) -> (r: Self)
        ensures
            r.deep_view() == self.deep_view(),
    {
        let participants = self.participants.clone();
        assert(participants.deep_view() =~= self.participants.deep_view());
        let utterances = self.utterances.clone();
        assert(utterances.deep_view() =~= self.utterances.deep_view());
        GeneratedConversation {
            session_id: self.session_id.clone(),
            participants,
            utterances,
        }
    }
}

/// What a result holds.
pub open spec fn outcome<T: DeepView, E: DeepView>(result: Result<T, E>) -> Result<T::V, E::V> {
    match result {
        Ok(value) => Ok(value.deep_view()),
        Err(error) => Err(error.deep_view()),
    }
}

} // verus!
