//! The generation of a turn: what the model is asked, and what comes of its reply.

use crate::config::{LlmRuntimeError, RuntimeError};
use crate::model::LlmToolCallingMode;
use crate::objects::objects;
use crate::prompt::{
    build_fact_extraction_prompt_content, build_turn_prompt, build_turn_system_prompt,
    extraction_prompt, system_prompt, turn_prompt, world_is_finite, EXTRACTION_SYSTEM,
};
use crate::reply::{
    cleaned_reply, normalize_and_filter_tool_calls, parse_turn, reads_as, reads_objects,
    reply_turn, settled, ModelMessage, ReplyCandidate,
};
use crate::schema::{has_depth, schema_fits};
use crate::table::Table;
use crate::text::{has_prefix, starts_with};
use crate::types::{
    Fact, LlmConversationFact, LlmConversationState, LlmResponse, LlmResponseMode,
    LlmToolDefinition, LlmTurn, LlmWorldContext, Response, Thread, ToolDefinition, Turn,
    WorldContext,
};
use vstd::prelude::*;

verus! {

/// Everything that the generation of a turn starts from.
#[derive(Debug, PartialEq)]
pub struct TurnGenerationTask {
    pub agent: String,
    pub conversation_id: Option<String>,
    pub prompt: String,
    pub response_mode: LlmResponseMode,
    pub facts: Vec<LlmConversationFact>,
    pub tools: Vec<LlmToolDefinition>,
    pub world: Option<LlmWorldContext>,
    pub conversation: Option<LlmConversationState>,
    pub session_participants: Option<Vec<String>>,
    pub speaker_labels: Option<Table<String, String>>,
}

/// What a [`TurnGenerationTask`] holds.
#[verifier::ext_equal]
pub struct TurnTask {
    pub agent: Seq<char>,
    pub conversation_id: Option<Seq<char>>,
    pub prompt: Seq<char>,
    pub response_mode: LlmResponseMode,
    pub facts: Seq<Fact>,
    pub tools: Seq<ToolDefinition>,
    pub world: Option<WorldContext>,
    pub conversation: Option<Thread>,
    pub session_participants: Option<Seq<Seq<char>>>,
    pub speaker_labels: Option<Map<Seq<char>, Seq<char>>>,
}

impl DeepView for TurnGenerationTask {
    type V = TurnTask;

    open spec fn deep_view(&self) -> TurnTask {
        TurnTask {
            agent: self.agent@,
            conversation_id: self.conversation_id.deep_view(),
            prompt: self.prompt@,
            response_mode: self.response_mode,
            facts: self.facts.deep_view(),
            tools: self.tools.deep_view(),
            world: self.world.deep_view(),
            conversation: self.conversation.deep_view(),
            session_participants: self.session_participants.deep_view(),
            speaker_labels: self.speaker_labels.deep_view(),
        }
    }
}

/// What a model is asked: a message of the system and one of the user.
#[derive(Debug, PartialEq, Eq)]
pub struct PromptMessages {
    pub system: String,
    pub user: String,
}

/// The message of the system for a task.
pub open spec fn task_system_prompt(task: TurnTask, tool_calling: LlmToolCallingMode) -> Seq<char> {
    system_prompt(
        task.agent,
        task.response_mode,
        task.tools,
        task.world,
        task.session_participants,
        tool_calling,
    )
}

/// The message of the user for a task.
pub open spec fn task_prompt(task: TurnTask) -> Seq<char> {
    turn_prompt(
        task.agent,
        task.prompt,
        task.response_mode,
        task.facts,
        task.tools,
        task.world,
        task.conversation,
        task.session_participants,
        task.speaker_labels,
    )
}

/// Writes what a model is asked for a turn.
pub fn turn_messages(task: &TurnGenerationTask, tool_calling: LlmToolCallingMode) -> (r:
    PromptMessages)
    requires
        task.response_mode == LlmResponseMode::StructuredJson ==> world_is_finite(
            task.deep_view().world,
        ),
    ensures
        r.system@ == task_system_prompt(task.deep_view(), tool_calling),
        r.user@ == task_prompt(task.deep_view()),
{
    let participants = match &task.session_participants {
        Some(participants) => Some(participants.as_slice()),
        None => None,
    };
    let system = build_turn_system_prompt(
        task.agent.as_str(),
        task.response_mode,
        task.tools.as_slice(),
        task.world.as_ref(),
        participants,
        tool_calling,
    );
    let user = build_turn_prompt(
        task.agent.as_str(),
        task.prompt.as_str(),
        task.response_mode,
        task.facts.as_slice(),
        task.tools.as_slice(),
        task.world.as_ref(),
        task.conversation.as_ref(),
        participants,
        task.speaker_labels.as_ref(),
    );
    PromptMessages { system, user }
}

/// Whether the schema of the world of a task, where it stands in the prompts, is no deeper
/// than a limit.
pub open spec fn task_fits(task: TurnTask, limit: nat) -> bool {
    task.response_mode == LlmResponseMode::StructuredJson ==> (task.world matches Some(world)
        ==> has_depth(world.world_schema, limit))
}

/// Writes what a model is asked for a turn, unless the schema of the world is deeper than
/// a limit.
pub fn turn_messages_within(
    task: &TurnGenerationTask,
    tool_calling: LlmToolCallingMode,
    limit: usize,
) -> (r: Option<PromptMessages>)
    ensures
        r is Some <==> task_fits(task.deep_view(), limit as nat),
        r matches Some(messages) ==> {
            &&& messages.system@ == task_system_prompt(task.deep_view(), tool_calling)
            &&& messages.user@ == task_prompt(task.deep_view())
        },
{
    if task.response_mode == LlmResponseMode::StructuredJson {
        if let Some(world) = &task.world {
            if !schema_fits(&world.world_schema, limit) {
                return None;
            }
        }
    }
    Some(turn_messages(task, tool_calling))
}

/// Writes what a model is asked to extract facts.
pub fn extraction_messages(extraction_input: &str) -> (r: PromptMessages)
    ensures
        r.system@ == EXTRACTION_SYSTEM@,
        r.user@ == extraction_prompt(extraction_input@),
{
    PromptMessages {
        system: EXTRACTION_SYSTEM.to_string(),
        user: build_fact_extraction_prompt_content(extraction_input, None),
    }
}

/// The turn that comes of a reply, given what the objects in its text hold.
pub open spec fn finished_turn(
    task: TurnTask,
    message: crate::reply::Message,
    candidates: Seq<crate::reply::Candidate>,
) -> Turn {
    settled(
        reply_turn(
            task.agent,
            task.conversation_id,
            task.response_mode,
            task.tools,
            task.world,
            message,
            candidates,
        ),
        task.response_mode,
        task.tools,
    )
}

/// Reads the turn of a reply, and settles which tools it calls.
pub fn finish_turn<F: Fn(&str) -> ReplyCandidate>(
    task: &TurnGenerationTask,
    message: Option<&ModelMessage>,
    parser: F,
) -> (r: Result<LlmTurn, LlmRuntimeError>)
    requires
        forall|text: &str| call_requires(parser, (text,)),
    ensures
        match message {
            Some(message) => r matches Ok(turn) && exists|candidates: Vec<ReplyCandidate>| {
                &&& reads_objects(
                    task.response_mode,
                    task.deep_view().tools,
                    message.deep_view(),
                ) ==> reads_as(
                    parser,
                    objects(cleaned_reply(message.deep_view())),
                    candidates@,
                )
                &&& turn.deep_view() == finished_turn(
                    task.deep_view(),
                    message.deep_view(),
                    #[trigger] candidates.deep_view(),
                )
            },
            None => r matches Err(error) && error.deep_view() == RuntimeError::InvalidTurn(
                "empty response"@,
            ),
        },
{
    let conversation_id = match &task.conversation_id {
        Some(id) => Some(id.as_str()),
        None => None,
    };
    match parse_turn(
        task.agent.as_str(),
        conversation_id,
        task.response_mode,
        task.tools.as_slice(),
        task.world.as_ref(),
        message,
        parser,
    ) {
        Ok(turn) => Ok(
            normalize_and_filter_tool_calls(turn, task.response_mode, task.tools.as_slice()),
        ),
        Err(error) => Err(error),
    }
}

/// Whether a response reports an error of the runtime.
pub open spec fn is_error(response: Seq<char>) -> bool {
    has_prefix(response, "LLM error:"@)
}

/// Whether a response reports an error of the runtime.
pub fn is_llm_error_response(response: &str) -> (r: bool)
    ensures
        r == is_error(response@),
{
    starts_with(response, "LLM error:")
}

/// How an error of the runtime is reported.
pub open spec fn error_report(reason: Seq<char>) -> Seq<char> {
    "LLM error: "@ + reason
}

/// Reports an error of the runtime.
pub fn report_error(reason: &str) -> (r: String)
    ensures
        r@ == error_report(reason@),
{
    let mut text = "LLM error: ".to_string();
    text.append(reason);
    text
}

/// A report of an error is known as one.
pub proof fn law_reported_errors_are_errors(reason: Seq<char>)
    ensures
        is_error(error_report(reason)),
{
    reveal_strlit("LLM error: ");
    reveal_strlit("LLM error:");
    assert(error_report(reason).take(10) =~= "LLM error:"@);
}

/// What the game is told of a turn: its text, unless it is empty or tools are called.
pub open spec fn response_to(turn: Turn) -> Response {
    Response {
        agent: turn.agent,
        conversation_id: turn.conversation_id,
        response: if turn.tool_calls.len() > 0 || turn.response.len() == 0 {
            None
        } else {
            Some(turn.response)
        },
        tool_calls: turn.tool_calls,
    }
}

/// Makes what the game is told of a turn.
pub fn response_of_turn(turn: LlmTurn) -> (r: LlmResponse)
    ensures
        r.deep_view() == response_to(turn.deep_view()),
{
    assert(turn.deep_view().tool_calls.len() == turn.tool_calls.len());
    let response = if turn.tool_calls.len() > 0 || turn.response.as_str().unicode_len() == 0 {
        None
    } else {
        Some(turn.response)
    };
    LlmResponse {
        agent: turn.agent,
        conversation_id: turn.conversation_id,
        response,
        tool_calls: turn.tool_calls,
    }
}

/// What is made of a reading of a cancellation flag.
pub fn cancellation_outcome(cancelled: bool) -> (r: Result<(), LlmRuntimeError>)
    ensures
        r is Err <==> cancelled,
        r matches Err(error) ==> error.deep_view() == RuntimeError::Cancelled,
{
    if cancelled {
        Err(LlmRuntimeError::Cancelled)
    } else {
        Ok(())
    }
}

/// Reads a cancellation flag, if there is one, and fails if it is set. What the flag shows
/// is up to whoever sets it.
pub fn check_cancelled(cancel_flag: Option<&std::sync::atomic::AtomicBool>) -> (r: Result<
    (),
    LlmRuntimeError,
>)
    ensures
        match cancel_flag {
            Some(flag) => exists|shown: bool| #[trigger]
                call_ensures(
                    std::sync::atomic::AtomicBool::load,
                    (flag, std::sync::atomic::Ordering::Relaxed),
                    shown,
                ) && (r is Err <==> shown),
            None => r is Ok,
        },
        r matches Err(error) ==> error.deep_view() == RuntimeError::Cancelled,
{
    match cancel_flag {
        Some(flag) => cancellation_outcome(flag.load(std::sync::atomic::Ordering::Relaxed)),
        None => Ok(()),
    }
}

} // verus!
