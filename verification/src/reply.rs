//! Reading a turn out of the reply of a model.

use crate::config::{LlmRuntimeError, RuntimeError};
use crate::json::{parse_value_or_text, value_or_text};
use crate::objects::{extract_json_objects, objects, strip_code_fences, unfenced};
use crate::prompt::{world_text, world_view_string_field};
use crate::text::{
    has_prefix, same_text, split_at_first, split_once, strip_prefix, trim, trimmed,
};
use crate::types::{
    LlmResponseMode, LlmToolCall, LlmToolDefinition, LlmTurn, LlmWorldContext, ToolCall,
    ToolDefinition, Turn, WorldContext,
};
use vstd::prelude::*;

verus! {

/// A tool call as the model backend hands it over, with the text of its arguments.
#[derive(Debug, PartialEq, Eq)]
pub struct ModelToolCall {
    pub name: String,
    pub arguments: String,
}

/// What a [`ModelToolCall`] holds.
#[verifier::ext_equal]
pub struct ModelCall {
    pub name: Seq<char>,
    pub arguments: Seq<char>,
}

impl DeepView for ModelToolCall {
    type V = ModelCall;

    open spec fn deep_view(&self) -> ModelCall {
        ModelCall {
            name: self.name@,
            arguments: self.arguments@,
        }
    }
}

impl Clone for ModelToolCall {
    fn clone(&self) -> (r: Self)
        ensures
            r.deep_view() == self.deep_view(),
    {
        ModelToolCall {
            name: self.name.clone(),
            arguments: self.arguments.clone(),
        }
    }
}

/// A message as the model backend hands it over.
#[derive(Debug, PartialEq, Eq)]
pub struct ModelMessage {
    pub content: Option<String>,
    pub tool_calls: Option<Vec<ModelToolCall>>,
}

/// What a [`ModelMessage`] holds.
#[verifier::ext_equal]
pub struct Message {
    pub content: Option<Seq<char>>,
    pub tool_calls: Option<Seq<ModelCall>>,
}

impl DeepView for ModelMessage {
    type V = Message;

    open spec fn deep_view(&self) -> Message {
        Message { content: self.content.deep_view(), tool_calls: self.tool_calls.deep_view() }
    }
}

/// Whether a tool of that name is offered.
pub open spec fn is_offered(tools: Seq<ToolDefinition>, name: Seq<char>) -> bool {
    exists|i: int| 0 <= i < tools.len() && (#[trigger] tools[i]).name == name
}

fn offers(tools: &[LlmToolDefinition], name: &str) -> (r: bool)
    ensures
        r == is_offered(tools.deep_view(), name@),
{
    let mut i: usize = 0;
    while i < tools.len()
        invariant
            i <= tools.len(),
            forall|k: int| 0 <= k < i ==> (#[trigger] tools.deep_view()[k]).name != name@,
        decreases tools.len() - i,
    {
        assert(tools.deep_view()[i as int] == tools@[i as int].deep_view());
        if same_text(tools[i].name.as_str(), name) {
            return true;
        }
        i = i + 1;
    }
    false
}

/// The calls of tools that are offered, each with the value that its arguments write, or
/// their text where they write none.
pub open spec fn accepted_calls(calls: Seq<ModelCall>, tools: Seq<ToolDefinition>) -> Seq<ToolCall>
    decreases calls.len(),
{
    if calls.len() == 0 {
        seq![]
    } else if is_offered(tools, calls.last().name) {
        accepted_calls(calls.drop_last(), tools).push(
            ToolCall {
                tool: calls.last().name,
                arguments: value_or_text(calls.last().arguments),
            },
        )
    } else {
        accepted_calls(calls.drop_last(), tools)
    }
}

/// The calls of a message that are accepted.
pub open spec fn message_calls(calls: Option<Seq<ModelCall>>, tools: Seq<ToolDefinition>) -> Seq<
    ToolCall,
> {
    match calls {
        Some(calls) => accepted_calls(calls, tools),
        None => seq![],
    }
}

/// Takes the calls of tools that are offered out of the calls of a message.
pub fn parse_mistral_tool_calls(
    tool_calls: Option<&Vec<ModelToolCall>>,
    allowed_tools: &[LlmToolDefinition],
) -> (r: Vec<LlmToolCall>)
    ensures
        r.deep_view() == message_calls(tool_calls.deep_view(), allowed_tools.deep_view()),
{
    let mut accepted: Vec<LlmToolCall> = Vec::new();
    assert(accepted.deep_view() =~= seq![]);
    let calls = match tool_calls {
        Some(calls) => calls,
        None => {
            return accepted;
        },
    };
    let ghost all = calls.deep_view();
    let ghost tools = allowed_tools.deep_view();
    let mut i: usize = 0;
    assert(all.take(0) =~= seq![]);
    while i < calls.len()
        invariant
            i <= calls.len(),
            all == calls.deep_view(),
            tools == allowed_tools.deep_view(),
            accepted.deep_view() == accepted_calls(all.take(i as int), tools),
        decreases calls.len() - i,
    {
        assert(all.take(i + 1).drop_last() =~= all.take(i as int));
        assert(all.take(i + 1).last() == calls@[i as int].deep_view());
        if offers(allowed_tools, calls[i].name.as_str()) {
            let ghost before = accepted.deep_view();
            let call = LlmToolCall {
                tool: calls[i].name.clone(),
                arguments: parse_value_or_text(calls[i].arguments.as_str()),
            };
            accepted.push(call);
            assert(accepted.deep_view() =~= before.push(call.deep_view()));
        }
        i = i + 1;
    }
    assert(all.take(all.len() as int) =~= all);
    accepted
}

/// A call as it is meant: where one tool alone is offered, a call of `name` or `tool`
/// means that one.
pub open spec fn meant_call(call: ToolCall, tools: Seq<ToolDefinition>) -> ToolCall {
    if tools.len() == 1 && (call.tool == "name"@ || call.tool == "tool"@) {
        ToolCall { tool: tools[0].name, ..call }
    } else {
        call
    }
}

/// The calls as they are meant, those of them whose tools are offered.
pub open spec fn kept_calls(calls: Seq<ToolCall>, tools: Seq<ToolDefinition>) -> Seq<ToolCall>
    decreases calls.len(),
{
    if calls.len() == 0 {
        seq![]
    } else if is_offered(tools, meant_call(calls.last(), tools).tool) {
        kept_calls(calls.drop_last(), tools).push(meant_call(calls.last(), tools))
    } else {
        kept_calls(calls.drop_last(), tools)
    }
}

/// A turn with the calls that it may make: none in a local chat.
pub open spec fn settled(turn: Turn, mode: LlmResponseMode, tools: Seq<ToolDefinition>) -> Turn {
    Turn {
        tool_calls: if mode == LlmResponseMode::PlainTextChat {
            seq![]
        } else {
            kept_calls(turn.tool_calls, tools)
        },
        ..turn
    }
}

fn keep_calls(calls: &Vec<LlmToolCall>, tools: &[LlmToolDefinition]) -> (r: Vec<LlmToolCall>)
    ensures
        r.deep_view() == kept_calls(calls.deep_view(), tools.deep_view()),
{
    let ghost all = calls.deep_view();
    let ghost offered = tools.deep_view();
    let mut kept: Vec<LlmToolCall> = Vec::new();
    let mut i: usize = 0;
    assert(all.take(0) =~= seq![]);
    assert(kept.deep_view() =~= seq![]);
    while i < calls.len()
        invariant
            i <= calls.len(),
            all == calls.deep_view(),
            offered == tools.deep_view(),
            offered.len() == tools.len(),
            kept.deep_view() == kept_calls(all.take(i as int), offered),
        decreases calls.len() - i,
    {
        assert(all.take(i + 1).drop_last() =~= all.take(i as int));
        assert(all.take(i + 1).last() == calls@[i as int].deep_view());
        let mut call = calls[i].clone();
        if tools.len() == 1 && (same_text(call.tool.as_str(), "name") || same_text(
            call.tool.as_str(),
            "tool",
        )) {
            assert(offered[0] == tools@[0].deep_view());
            call.tool = tools[0].name.clone();
        }
        assert(call.deep_view() == meant_call(all[i as int], offered));
        if offers(tools, call.tool.as_str()) {
            let ghost before = kept.deep_view();
            kept.push(call);
            assert(kept.deep_view() =~= before.push(call.deep_view()));
        }
        i = i + 1;
    }
    assert(all.take(all.len() as int) =~= all);
    kept
}

/// Settles which tool calls a turn makes.
pub fn normalize_and_filter_tool_calls(
    turn: LlmTurn,
    response_mode: LlmResponseMode,
    tools: &[LlmToolDefinition],
) -> (r: LlmTurn)
    ensures
        r.deep_view() == settled(turn.deep_view(), response_mode, tools.deep_view()),
{
    let mut turn = turn;
    if response_mode == LlmResponseMode::PlainTextChat {
        turn.tool_calls = Vec::new();
        assert(turn.tool_calls.deep_view() =~= seq![]);
    } else {
        turn.tool_calls = keep_calls(&turn.tool_calls, tools);
    }
    turn
}

/// In a local chat no turn calls a tool.
pub proof fn law_chat_calls_no_tools(turn: Turn, tools: Seq<ToolDefinition>)
    ensures
        settled(turn, LlmResponseMode::PlainTextChat, tools).tool_calls.len() == 0,
{
}

/// A turn calls only tools that are offered; where none are, it calls none.
pub proof fn law_only_offered_tools_are_called(
    turn: Turn,
    mode: LlmResponseMode,
    tools: Seq<ToolDefinition>,
)
    ensures
        forall|i: int|
            0 <= i < settled(turn, mode, tools).tool_calls.len() ==> is_offered(
                tools,
                (#[trigger] settled(turn, mode, tools).tool_calls[i]).tool,
            ),
        tools.len() == 0 ==> settled(turn, mode, tools).tool_calls.len() == 0,
{
    lemma_kept_calls(turn.tool_calls, tools);
    if tools.len() == 0 && settled(turn, mode, tools).tool_calls.len() > 0 {
        assert(is_offered(tools, settled(turn, mode, tools).tool_calls[0].tool));
    }
}

proof fn lemma_kept_calls(calls: Seq<ToolCall>, tools: Seq<ToolDefinition>)
    ensures
        forall|i: int|
            0 <= i < kept_calls(calls, tools).len() ==> is_offered(
                tools,
                (#[trigger] kept_calls(calls, tools)[i]).tool,
            ),
        kept_calls(calls, tools).len() <= calls.len(),
    decreases calls.len(),
{
    if calls.len() > 0 {
        lemma_kept_calls(calls.drop_last(), tools);
    }
}

proof fn lemma_offered_calls_stay(calls: Seq<ToolCall>, tools: Seq<ToolDefinition>)
    requires
        forall|i: int| 0 <= i < calls.len() ==> is_offered(tools, (#[trigger] calls[i]).tool),
    ensures
        kept_calls(calls, tools) == calls,
    decreases calls.len(),
{
    if calls.len() > 0 {
        let shorter = calls.drop_last();
        assert forall|i: int| 0 <= i < shorter.len() implies is_offered(
            tools,
            (#[trigger] shorter[i]).tool,
        ) by {
            assert(is_offered(tools, calls[i].tool));
        }
        lemma_offered_calls_stay(shorter, tools);
        let last = calls[calls.len() - 1];
        assert(is_offered(tools, last.tool));
        if tools.len() == 1 {
            let i = choose|i: int| 0 <= i < tools.len() && (#[trigger] tools[i]).name == last.tool;
            assert(meant_call(last, tools) == last);
        }
        assert(kept_calls(calls, tools) =~= calls);
    } else {
        assert(calls =~= seq![]);
    }
}

/// Settling the calls of a turn a second time changes nothing.
pub proof fn law_settling_is_idempotent(
    turn: Turn,
    mode: LlmResponseMode,
    tools: Seq<ToolDefinition>,
)
    ensures
        settled(settled(turn, mode, tools), mode, tools) == settled(turn, mode, tools),
{
    lemma_kept_calls(turn.tool_calls, tools);
    lemma_offered_calls_stay(kept_calls(turn.tool_calls, tools), tools);
}

/// The message behind a speaker's label, which stands in bold in front of it with the
/// colon outside or inside the bold text; nothing if no accepted label stands there.
pub open spec fn unlabelled(output: Seq<char>, labels: Seq<Seq<char>>) -> Option<Seq<char>> {
    if !has_prefix(output, "**"@) {
        None
    } else {
        let rest = output.skip("**"@.len() as int);
        match behind_label(rest, "**:"@, labels) {
            Some(message) => Some(message),
            None => behind_label(rest, ":**"@, labels),
        }
    }
}

/// The message behind a label and a separator.
pub open spec fn behind_label(
    rest: Seq<char>,
    separator: Seq<char>,
    labels: Seq<Seq<char>>,
) -> Option<Seq<char>> {
    match split_at_first(rest, separator) {
        Some((label, message)) => if labels.contains(trimmed(label)) {
            Some(trimmed(message))
        } else {
            None
        },
        None => None,
    }
}

fn is_label(labels: &[&str], label: &str) -> (r: bool)
    ensures
        r == labels.deep_view().contains(label@),
{
    let mut i: usize = 0;
    while i < labels.len()
        invariant
            i <= labels.len(),
            forall|k: int| 0 <= k < i ==> labels.deep_view()[k] != label@,
        decreases labels.len() - i,
    {
        assert(labels.deep_view()[i as int] == labels@[i as int]@);
        if same_text(labels[i], label) {
            return true;
        }
        i = i + 1;
    }
    false
}

fn message_behind_label(content: &str, separator: &str, labels: &[&str]) -> (r: Option<String>)
    ensures
        r.deep_view() == behind_label(content@, separator@, labels.deep_view()),
{
    match split_once(content, separator) {
        Some((label, message)) => if is_label(labels, trim(label)) {
            Some(trim(message).to_string())
        } else {
            None
        },
        None => None,
    }
}

/// The message behind a speaker's label, if an accepted label stands in front.
pub fn strip_plain_text_chat_speaker_prefix(output: &str, accepted_labels: &[&str]) -> (r: Option<
    String,
>)
    ensures
        r.deep_view() == unlabelled(output@, accepted_labels.deep_view()),
{
    match strip_prefix(output, "**") {
        Some(content) => match message_behind_label(content, "**:", accepted_labels) {
            Some(message) => Some(message),
            None => message_behind_label(content, ":**", accepted_labels),
        },
        None => None,
    }
}

/// The labels under which an agent may speak: its id and the name that the world gives.
pub open spec fn own_labels(agent: Seq<char>, world: Option<WorldContext>) -> Seq<Seq<char>> {
    match world_text(world, "agent_name"@) {
        Some(name) => if name == agent {
            seq![agent]
        } else {
            seq![agent, name]
        },
        None => seq![agent],
    }
}

/// What an agent says in a local chat: the reply without the agent's label. A reply that
/// is a bare bold marker is silence.
pub open spec fn said(agent: Seq<char>, world: Option<WorldContext>, output: Seq<char>) -> Seq<
    char,
> {
    if output == "SILENT"@ {
        output
    } else {
        match unlabelled(output, own_labels(agent, world)) {
            Some(message) => message,
            None => if trimmed(output) == "**"@ {
                "SILENT"@
            } else {
                output
            },
        }
    }
}

/// What an agent says in a local chat.
pub fn normalize_plain_text_chat_response(
    agent: &str,
    world: Option<&LlmWorldContext>,
    output: &str,
) -> (r: String)
    ensures
        r@ == said(agent@, world.deep_view(), output@),
{
    if same_text(output, "SILENT") {
        return "SILENT".to_string();
    }
    let name = world_view_string_field(world, "agent_name");
    let mut labels: Vec<&str> = Vec::new();
    labels.push(agent);
    assert(labels.deep_view() =~= seq![agent@]);
    if let Some(name) = &name {
        if !same_text(name.as_str(), agent) {
            labels.push(name.as_str());
            assert(labels.deep_view() =~= seq![agent@, name@]);
        }
    }
    match strip_plain_text_chat_speaker_prefix(output, labels.as_slice()) {
        Some(message) => message,
        None => if same_text(trim(output), "**") {
            "SILENT".to_string()
        } else {
            output.to_string()
        },
    }
}

/// An object of a reply read as a turn.
#[derive(Debug, PartialEq)]
pub struct TurnFields {
    pub response: Option<String>,
    pub tool_calls: Vec<LlmToolCall>,
}

/// What a [`TurnFields`] holds.
#[verifier::ext_equal]
pub struct TurnObject {
    pub response: Option<Seq<char>>,
    pub tool_calls: Seq<ToolCall>,
}

impl DeepView for TurnFields {
    type V = TurnObject;

    open spec fn deep_view(&self) -> TurnObject {
        TurnObject {
            response: self.response.deep_view(),
            tool_calls: self.tool_calls.deep_view(),
        }
    }
}

impl Clone for TurnFields {
    fn clone(&self) -> (r: Self)
        ensures
            r.deep_view() == self.deep_view(),
    {
        let tool_calls = self.tool_calls.clone();
        assert(tool_calls.deep_view() =~= self.tool_calls.deep_view());
        TurnFields {
            response: self.response.clone(),
            tool_calls,
        }
    }
}

/// An object of a reply, read as a turn and as a tool call, as far as it is one.
#[derive(Debug, PartialEq)]
pub struct ReplyCandidate {
    pub turn: Option<TurnFields>,
    pub call: Option<LlmToolCall>,
}

/// What a [`ReplyCandidate`] holds.
#[verifier::ext_equal]
pub struct Candidate {
    pub turn: Option<TurnObject>,
    pub call: Option<ToolCall>,
}

impl DeepView for ReplyCandidate {
    type V = Candidate;

    open spec fn deep_view(&self) -> Candidate {
        Candidate { turn: self.turn.deep_view(), call: self.call.deep_view() }
    }
}

/// What the objects of a reply bring: a response and tool calls.
#[verifier::ext_equal]
pub struct Gathered {
    pub response: Option<Seq<char>>,
    pub calls: Seq<ToolCall>,
}

/// Whether an object says anything as a turn.
pub open spec fn says_something(candidate: Candidate) -> bool {
    candidate.turn matches Some(turn) && (turn.response is Some || turn.tool_calls.len() > 0)
}

/// What the objects of a reply bring together: the first response, and all tool calls,
/// those in turns and those that stand alone.
pub open spec fn gathered(candidates: Seq<Candidate>) -> Gathered
    decreases candidates.len(),
{
    if candidates.len() == 0 {
        Gathered { response: None, calls: seq![] }
    } else {
        let before = gathered(candidates.drop_last());
        let last = candidates.last();
        if says_something(last) {
            Gathered {
                response: if before.response is Some {
                    before.response
                } else {
                    last.turn->0.response
                },
                calls: before.calls + last.turn->0.tool_calls,
            }
        } else if last.call is Some {
            Gathered { calls: before.calls.push(last.call->0), ..before }
        } else {
            before
        }
    }
}

/// The turn of a structured reply: what its objects bring, or its text where they bring
/// nothing. A turn that calls tools says nothing.
pub open spec fn structured_turn(
    agent: Seq<char>,
    conversation_id: Option<Seq<char>>,
    cleaned: Seq<char>,
    candidates: Seq<Candidate>,
) -> Turn {
    let found = gathered(candidates);
    Turn {
        agent,
        conversation_id,
        response: if found.calls.len() > 0 {
            ""@
        } else {
            match found.response {
                Some(response) => response,
                None => cleaned,
            }
        },
        tool_calls: found.calls,
    }
}

fn gather(candidates: &Vec<ReplyCandidate>) -> (r: (Option<String>, Vec<LlmToolCall>))
    ensures
        r.0.deep_view() == gathered(candidates.deep_view()).response,
        r.1.deep_view() == gathered(candidates.deep_view()).calls,
{
    let ghost all = candidates.deep_view();
    let mut response: Option<String> = None;
    let mut calls: Vec<LlmToolCall> = Vec::new();
    let mut i: usize = 0;
    assert(all.take(0) =~= seq![]);
    assert(calls.deep_view() =~= seq![]);
    while i < candidates.len()
        invariant
            i <= candidates.len(),
            all == candidates.deep_view(),
            response.deep_view() == gathered(all.take(i as int)).response,
            calls.deep_view() == gathered(all.take(i as int)).calls,
        decreases candidates.len() - i,
    {
        let candidate = &candidates[i];
        let ghost before = calls.deep_view();
        assert(all.take(i + 1).drop_last() =~= all.take(i as int));
        assert(all.take(i + 1).last() == candidate.deep_view());
        let mut done = false;
        if let Some(turn) = &candidate.turn {
            assert(turn.deep_view().tool_calls.len() == turn.tool_calls.len());
            if turn.response.is_some() || turn.tool_calls.len() > 0 {
                done = true;
                if response.is_none() {
                    response = turn.response.clone();
                }
                let mut more = turn.tool_calls.clone();
                assert(more.deep_view() =~= turn.tool_calls.deep_view());
                let ghost added = more.deep_view();
                calls.append(&mut more);
                assert(calls.deep_view() =~= before + added);
            }
        }
        if !done {
            if let Some(call) = &candidate.call {
                let copy = call.clone();
                calls.push(copy);
                assert(calls.deep_view() =~= before.push(copy.deep_view()));
            }
        }
        i = i + 1;
    }
    assert(all.take(all.len() as int) =~= all);
    (response, calls)
}

/// The text of a reply that a turn is read from.
pub open spec fn cleaned_reply(message: Message) -> Seq<char> {
    trimmed(
        unfenced(
            match message.content {
                Some(text) => text,
                None => ""@,
            },
        ),
    )
}

/// Whether a turn is read from the objects in the text of a reply: in a structured reply
/// whose message calls no tool that is offered.
pub open spec fn reads_objects(
    mode: LlmResponseMode,
    tools: Seq<ToolDefinition>,
    message: Message,
) -> bool {
    mode == LlmResponseMode::StructuredJson && message_calls(message.tool_calls, tools).len() == 0
}

/// The turn of a reply, given what the objects in its text hold.
pub open spec fn reply_turn(
    agent: Seq<char>,
    conversation_id: Option<Seq<char>>,
    mode: LlmResponseMode,
    tools: Seq<ToolDefinition>,
    world: Option<WorldContext>,
    message: Message,
    candidates: Seq<Candidate>,
) -> Turn {
    let cleaned = cleaned_reply(message);
    if reads_objects(mode, tools, message) {
        structured_turn(agent, conversation_id, cleaned, candidates)
    } else {
        Turn {
            agent,
            conversation_id,
            response: if mode == LlmResponseMode::PlainTextChat {
                said(agent, world, cleaned)
            } else {
                cleaned
            },
            tool_calls: message_calls(message.tool_calls, tools),
        }
    }
}

/// The text of a message that a turn is read from.
pub fn clean_reply(message: &ModelMessage) -> (r: String)
    ensures
        r@ == cleaned_reply(message.deep_view()),
{
    let text = match &message.content {
        Some(text) => text.as_str(),
        None => "",
    };
    let unwrapped = strip_code_fences(text);
    trim(unwrapped.as_str()).to_string()
}

/// Reads the turn of a reply, given what the objects in its text hold.
pub fn turn_of_reply(
    agent: &str,
    conversation_id: Option<&str>,
    response_mode: LlmResponseMode,
    tools: &[LlmToolDefinition],
    world: Option<&LlmWorldContext>,
    message: &ModelMessage,
    candidates: &Vec<ReplyCandidate>,
) -> (r: LlmTurn)
    ensures
        r.deep_view() == reply_turn(
            agent@,
            conversation_id.deep_view(),
            response_mode,
            tools.deep_view(),
            world.deep_view(),
            message.deep_view(),
            candidates.deep_view(),
        ),
{
    let cleaned = clean_reply(message);
    let tool_calls = parse_mistral_tool_calls(message.tool_calls.as_ref(), tools);
    assert(tool_calls.deep_view().len() == tool_calls.len());
    let agent = agent.to_string();
    let conversation_id = match conversation_id {
        Some(id) => Some(id.to_string()),
        None => None,
    };
    if response_mode == LlmResponseMode::PlainTextChat {
        let response = normalize_plain_text_chat_response(
            agent.as_str(),
            world,
            cleaned.as_str(),
        );
        return LlmTurn { agent, conversation_id, response, tool_calls };
    }
    if tool_calls.len() > 0 {
        return LlmTurn { agent, conversation_id, response: cleaned, tool_calls };
    }
    let (response, tool_calls) = gather(candidates);
    assert(tool_calls.deep_view().len() == tool_calls.len());
    let response = if tool_calls.len() > 0 {
        "".to_string()
    } else {
        match response {
            Some(response) => response,
            None => cleaned,
        }
    };
    LlmTurn { agent, conversation_id, response, tool_calls }
}

/// Whether a parser may have read the given candidates from the given texts, one from
/// each.
pub open spec fn reads_as<F: Fn(&str) -> ReplyCandidate>(
    parser: F,
    texts: Seq<Seq<char>>,
    candidates: Seq<ReplyCandidate>,
) -> bool {
    &&& texts.len() == candidates.len()
    &&& forall|i: int|
        0 <= i < texts.len() ==> exists|text: &str| #[trigger]
            text@ == texts[i] && call_ensures(parser, (text,), #[trigger] candidates[i])
}

/// Reads the turn of a reply. A parser reads the objects that stand in its text, where
/// the turn is read from them. A reply without a message is no turn.
pub fn parse_turn<F: Fn(&str) -> ReplyCandidate>(
    agent: &str,
    conversation_id: Option<&str>,
    response_mode: LlmResponseMode,
    tools: &[LlmToolDefinition],
    world: Option<&LlmWorldContext>,
    message: Option<&ModelMessage>,
    parser: F,
) -> (r: Result<LlmTurn, LlmRuntimeError>)
    requires
        forall|text: &str| call_requires(parser, (text,)),
    ensures
        match message {
            Some(message) => r matches Ok(turn) && exists|candidates: Vec<ReplyCandidate>| {
                &&& reads_objects(response_mode, tools.deep_view(), message.deep_view()) ==> reads_as(
                    parser,
                    objects(cleaned_reply(message.deep_view())),
                    candidates@,
                )
                &&& turn.deep_view() == reply_turn(
                    agent@,
                    conversation_id.deep_view(),
                    response_mode,
                    tools.deep_view(),
                    world.deep_view(),
                    message.deep_view(),
                    #[trigger] candidates.deep_view(),
                )
            },
            None => r matches Err(error) && error.deep_view() == RuntimeError::InvalidTurn(
                "empty response"@,
            ),
        },
{
    let message = match message {
        Some(message) => message,
        None => {
            return Err(LlmRuntimeError::InvalidTurn("empty response".to_string()));
        },
    };
    let mut candidates: Vec<ReplyCandidate> = Vec::new();
    let accepted = parse_mistral_tool_calls(message.tool_calls.as_ref(), tools);
    assert(accepted.deep_view().len() == accepted.len());
    if response_mode == LlmResponseMode::StructuredJson && accepted.len() == 0 {
        let cleaned = clean_reply(message);
        let found = extract_json_objects(cleaned.as_str());
        let mut i: usize = 0;
        while i < found.len()
            invariant
                i <= found.len(),
                candidates.len() == i,
                found.deep_view() == objects(cleaned@),
                forall|text: &str| call_requires(parser, (text,)),
                forall|k: int|
                    0 <= k < i ==> exists|text: &str| #[trigger]
                        text@ == objects(cleaned@)[k] && call_ensures(
                            parser,
                            (text,),
                            #[trigger] candidates@[k],
                        ),
            decreases found.len() - i,
        {
            let text = found[i];
            assert(text@ == objects(cleaned@)[i as int]) by {
                assert(found.deep_view()[i as int] == text@);
            }
            let ghost before = candidates@;
            let candidate = parser(text);
            candidates.push(candidate);
            assert forall|k: int| 0 <= k < i + 1 implies exists|text: &str| #[trigger]
                text@ == objects(cleaned@)[k] && call_ensures(
                    parser,
                    (text,),
                    #[trigger] candidates@[k],
                ) by {
                if k < i {
                    assert(candidates@[k] == before[k]);
                } else {
                    assert(text@ == objects(cleaned@)[k] && call_ensures(
                        parser,
                        (text,),
                        candidates@[k],
                    ));
                }
            }
            i = i + 1;
        }
        assert(found.deep_view().len() == found.len());
    }
    let turn = turn_of_reply(
        agent,
        conversation_id,
        response_mode,
        tools,
        world,
        message,
        &candidates,
    );
    Ok(turn)
}

} // verus!
