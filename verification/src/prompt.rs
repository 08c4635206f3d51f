//! The prompts of a turn.

use crate::history::{conversation_text, format_conversation_context};
use crate::json::{content, data_of, find_text, format_json, formatted, text_member};
use crate::model::LlmToolCallingMode;
use crate::schema::{format_schema_guide, guide, has_guide};
use crate::table::Table;
use crate::text::{join, joined, same_text};
use crate::types::{
    Entry, Fact, LlmConversationEntry, LlmConversationEntryKind, LlmConversationFact,
    LlmConversationState, LlmResponseMode, LlmToolDefinition, LlmWorldContext, Thread,
    ToolDefinition, WorldContext,
};
use vstd::prelude::*;

verus! {

/// What is said where no tools are offered.
pub const NO_TOOLS: &'static str = "No tools are available for this request.";

/// What is said where no world is known.
pub const NO_WORLD: &'static str = "No world state snapshot is available for this agent.";

/// What a reply without tools must look like.
pub const ANSWER_ONLY: &'static str = "Return exactly one JSON object.\n\
No extra text.\n\
No tools are available for this request.\n\
Respond with a JSON object containing only `response`.\n\
Never return `tool_calls`.\n";

/// What a reply with tools must look like.
pub const ANSWER_OR_ACT: &'static str = "Speak only in the response text.\n\
If you need to act, use the provided tools instead of narrating the action.\n\
Keep tool calls separate from spoken dialogue.\n";

/// What a reply in a local chat must look like.
pub const CHAT_CONTRACT: &'static str = "Tools are disabled for this local chat request.\n\
Output contract:\n\
Reply with message text only.\n\
Do not include your name, speaker label, markdown, or surrounding quotes.\n\
If your reply would only repeat memory facts or restate something already said, \
reply exactly `SILENT`.\n\
If you have nothing useful to say, reply exactly `SILENT`.\n\
Accepted legacy format: `";

/// What a chat prompt asks for, behind the speaker's name.
pub const CHAT_REQUEST: &'static str =
    ". Continue the conversation with message text only. If everything important has already \
been covered, reply with SILENT.\n";

/// What a fact extraction is asked, before the text that facts are drawn from.
pub const EXTRACTION_REQUEST: &'static str =
    "Extract durable facts from the following conversation updates.\n\
Return exactly one JSON object with a single `facts` array.\n\
Each fact entry must contain `fact`, `importance`, and `expiry`.\n\
`importance` must be a number between 0.0 and 1.0.\n\
Use short concrete facts only.\n\
Only extract facts that were explicitly stated in the conversation updates.\n\
If nothing should be remembered, return {\"facts\":[]}.\n\
Do not omit the `fact` field.\n\
Valid example with one fact:\n\
{\"facts\":[{\"fact\":\"Alpha ordered the bridge held.\",\"importance\":0.85,\"expiry\":\"unknown\"}]}\n\
Valid example with no facts:\n\
{\"facts\":[]}\n\
Do not include any text outside the JSON object.\n\
\n\
Conversation updates:\n";

/// The system message of a fact extraction.
pub const EXTRACTION_SYSTEM: &'static str =
    "Extract durable facts from the user-provided conversation updates. Return only JSON.";

/// The text of a field of a world's view, if it is there and not empty.
pub open spec fn world_text(world: Option<WorldContext>, key: Seq<char>) -> Option<Seq<char>> {
    match world {
        Some(world) => match text_member(world.world_view, key) {
            Some(text) => if text.len() == 0 {
                None
            } else {
                Some(text)
            },
            None => None,
        },
        None => None,
    }
}

/// The text of a field of a world's view, if it is there and not empty.
pub fn world_view_string_field(world: Option<&LlmWorldContext>, key: &str) -> (r: Option<String>)
    ensures
        r.deep_view() == world_text(world.deep_view(), key@),
{
    match world {
        Some(world) => {
            let data = data_of(&world.world_view);
            match find_text(&data, key) {
                Some(text) => if text.unicode_len() == 0 {
                    None
                } else {
                    Some(text.to_string())
                },
                None => None,
            }
        },
        None => None,
    }
}

/// The lines of who an agent is, those of them that the world gives.
pub open spec fn identity_lines(world: Option<WorldContext>) -> Seq<Seq<char>> {
    labelled("Preferred agent name: "@, world_text(world, "agent_name"@)) + labelled(
        "Persona: "@,
        world_text(world, "persona"@),
    ) + labelled("Current goal: "@, world_text(world, "current_goal"@))
}

/// A text behind its label as one line, or no line.
pub open spec fn labelled(label: Seq<char>, text: Option<Seq<char>>) -> Seq<Seq<char>> {
    match text {
        Some(text) => seq![label + text],
        None => seq![],
    }
}

/// Who an agent is.
pub open spec fn identity(world: Option<WorldContext>) -> Seq<char> {
    let lines = identity_lines(world);
    if lines.len() == 0 {
        ""@
    } else {
        joined(lines, "\n"@) + "\n"@
    }
}

fn push_labelled(lines: &mut Vec<String>, label: &str, text: Option<String>)
    ensures
        final(lines).deep_view() == old(lines).deep_view() + labelled(label@, text.deep_view()),
{
    let ghost before = lines.deep_view();
    match text {
        Some(text) => {
            let mut line = label.to_string();
            line.append(text.as_str());
            lines.push(line);
            assert(lines.deep_view() =~= before + seq![line@]);
        },
        None => {
            assert(lines.deep_view() =~= before + seq![]);
        },
    }
}

/// Who an agent is: the name, the persona and the goal that the world gives.
pub fn build_plain_text_chat_identity_preamble(
    agent: &str,
    world: Option<&LlmWorldContext>,
) -> (r: String)
    ensures
        r@ == identity(world.deep_view()),
{
    let mut lines: Vec<String> = Vec::new();
    assert(lines.deep_view() =~= seq![]);
    push_labelled(
        &mut lines,
        "Preferred agent name: ",
        world_view_string_field(world, "agent_name"),
    );
    push_labelled(&mut lines, "Persona: ", world_view_string_field(world, "persona"));
    push_labelled(&mut lines, "Current goal: ", world_view_string_field(world, "current_goal"));
    assert(lines.deep_view() =~= identity_lines(world.deep_view()));
    assert(lines.deep_view().len() == lines.len());
    if lines.len() == 0 {
        "".to_string()
    } else {
        let mut text = join(lines.as_slice(), "\n");
        text.append("\n");
        text
    }
}

/// What a chat prompt opens with: who the agent is.
pub fn build_plain_text_chat_response_preamble(
    agent: &str,
    world: Option<&LlmWorldContext>,
    session_participants: Option<&[String]>,
) -> (r: String)
    ensures
        r@ == identity(world.deep_view()),
{
    build_plain_text_chat_identity_preamble(agent, world)
}

/// A message in the ChatML format.
pub open spec fn chatml(role: Seq<char>, text: Seq<char>) -> Seq<char> {
    "<|im_start|>"@ + role + "\n"@ + text + "<|im_end|>"@
}

/// A message in the ChatML format.
pub fn chatml_message(role: &str, content: &str) -> (r: String)
    ensures
        r@ == chatml(role@, content@),
{
    let mut text = "<|im_start|>".to_string();
    text.append(role);
    text.append("\n");
    text.append(content);
    text.append("<|im_end|>");
    text
}

/// The name an agent speaks under: the one that the world gives, or the agent's id.
pub open spec fn speaker_label(agent: Seq<char>, world: Option<WorldContext>) -> Seq<char> {
    match world_text(world, "agent_name"@) {
        Some(name) => name,
        None => agent,
    }
}

/// The name an agent speaks under.
pub fn plain_text_chat_speaker_label(agent: &str, world: Option<&LlmWorldContext>) -> (r: String)
    ensures
        r@ == speaker_label(agent@, world.deep_view()),
{
    match world_view_string_field(world, "agent_name") {
        Some(name) => name,
        None => agent.to_string(),
    }
}

/// The name under which another participant speaks: the one it is listed with, or its id.
pub open spec fn listed_label(
    speaker: Seq<char>,
    labels: Option<Map<Seq<char>, Seq<char>>>,
) -> Seq<char> {
    match labels {
        Some(labels) => if labels.dom().contains(speaker) {
            labels[speaker]
        } else {
            speaker
        },
        None => speaker,
    }
}

/// An entry of a thread as a chat message: the agent's own words are the assistant's,
/// a notice is the system's, and all others are a user's.
pub open spec fn chat_message(
    agent: Seq<char>,
    entry: Entry,
    world: Option<WorldContext>,
    labels: Option<Map<Seq<char>, Seq<char>>>,
) -> Seq<char> {
    if entry.kind == LlmConversationEntryKind::Control {
        chatml("system"@, entry.text)
    } else if entry.speaker == agent {
        chatml("assistant"@, "**"@ + speaker_label(agent, world) + ":** "@ + entry.text)
    } else {
        chatml("user"@, "**"@ + listed_label(entry.speaker, labels) + ":** "@ + entry.text)
    }
}

/// Writes an entry of a thread as a chat message.
pub fn render_plain_text_chat_entry(
    active_agent: &str,
    entry: &LlmConversationEntry,
    active_world: Option<&LlmWorldContext>,
    speaker_labels: Option<&Table<String, String>>,
) -> (r: String)
    ensures
        r@ == chat_message(
            active_agent@,
            entry.deep_view(),
            active_world.deep_view(),
            speaker_labels.deep_view(),
        ),
{
    match entry.kind {
        LlmConversationEntryKind::Control => chatml_message("system", entry.text.as_str()),
        LlmConversationEntryKind::Chat
        | LlmConversationEntryKind::Prompt
        | LlmConversationEntryKind::Response
        | LlmConversationEntryKind::ToolCall => {
            let own = same_text(entry.speaker.as_str(), active_agent);
            let label = if own {
                plain_text_chat_speaker_label(active_agent, active_world)
            } else {
                match speaker_labels {
                    Some(labels) => match labels.get(&entry.speaker) {
                        Some(label) => label.clone(),
                        None => entry.speaker.clone(),
                    },
                    None => entry.speaker.clone(),
                }
            };
            let mut text = "**".to_string();
            text.append(label.as_str());
            text.append(":** ");
            text.append(entry.text.as_str());
            let role = if own {
                "assistant"
            } else {
                "user"
            };
            chatml_message(role, text.as_str())
        },
    }
}

/// The form in which a chat reply may name its speaker.
pub open spec fn legacy_format(agent: Seq<char>, world: Option<WorldContext>) -> Seq<char> {
    "**"@ + speaker_label(agent, world) + ":** {message}"@
}

/// The form in which a chat reply may name its speaker.
pub fn expected_plain_text_chat_response_format(
    agent: &str,
    world: Option<&LlmWorldContext>,
) -> (r: String)
    ensures
        r@ == legacy_format(agent@, world.deep_view()),
{
    let mut text = "**".to_string();
    text.append(plain_text_chat_speaker_label(agent, world).as_str());
    text.append(":** {message}");
    text
}

/// What a fact extraction is asked.
pub open spec fn extraction_prompt(input: Seq<char>) -> Seq<char> {
    EXTRACTION_REQUEST@ + input + "\n"@
}

/// What a fact extraction is asked. The world has no part in it.
pub fn build_fact_extraction_prompt_content(
    extraction_input: &str,
    world: Option<&LlmWorldContext>,
) -> (r: String)
    ensures
        r@ == extraction_prompt(extraction_input@),
{
    let mut text = EXTRACTION_REQUEST.to_string();
    text.append(extraction_input);
    text.append("\n");
    text
}

/// The line of a stored fact.
pub open spec fn fact_line(fact: Fact) -> Seq<char> {
    "- fact: "@ + fact.fact + " | importance: "@ + fact.importance.rendered() + " | expiry: "@
        + fact.expiry
}

/// The lines of stored facts.
pub open spec fn fact_lines(facts: Seq<Fact>) -> Seq<Seq<char>> {
    Seq::new(facts.len(), |i: int| fact_line(facts[i]))
}

/// The stored facts as they stand in a prompt.
pub open spec fn fact_memory(facts: Seq<Fact>) -> Seq<char> {
    if facts.len() == 0 {
        "No stored facts."@
    } else {
        joined(fact_lines(facts), "\n"@)
    }
}

/// Writes the stored facts as they stand in a prompt.
pub fn format_fact_memory(facts: &[LlmConversationFact]) -> (r: String)
    ensures
        r@ == fact_memory(facts.deep_view()),
{
    let ghost all = facts.deep_view();
    assert(all.len() == facts.len());
    if facts.len() == 0 {
        return "No stored facts.".to_string();
    }
    let mut lines: Vec<String> = Vec::new();
    let mut i: usize = 0;
    while i < facts.len()
        invariant
            i <= facts.len(),
            all == facts.deep_view(),
            lines.deep_view() == fact_lines(all).take(i as int),
        decreases facts.len() - i,
    {
        let fact = &facts[i];
        let mut line = "- fact: ".to_string();
        line.append(fact.fact.as_str());
        line.append(" | importance: ");
        line.append(fact.importance.two_decimals().as_str());
        line.append(" | expiry: ");
        line.append(fact.expiry.as_str());
        let ghost before = lines.deep_view();
        lines.push(line);
        assert(lines.deep_view() =~= before.push(line@));
        assert(all[i as int] == fact.deep_view());
        assert(lines.deep_view() =~= fact_lines(all).take(i + 1));
        i = i + 1;
    }
    assert(lines.deep_view() =~= fact_lines(all));
    join(lines.as_slice(), "\n")
}

/// The lines of a tool.
pub open spec fn tool_line(tool: ToolDefinition) -> Seq<char> {
    "- tool: "@ + tool.name + "\n  description: "@ + tool.description + "\n  arguments schema: "@
        + formatted(tool.parameters)
}

/// The lines of tools.
pub open spec fn tool_lines(tools: Seq<ToolDefinition>) -> Seq<Seq<char>> {
    Seq::new(tools.len(), |i: int| tool_line(tools[i]))
}

/// The tools that are offered, as they stand in a prompt.
pub open spec fn tool_block(tools: Seq<ToolDefinition>) -> Seq<char> {
    let listed = "Available tools:\n"@ + joined(tool_lines(tools), "\n"@);
    if tools.len() == 0 {
        NO_TOOLS@
    } else if tools.len() == 1 {
        listed + "\nOnly valid tool name for this request: "@ + tools[0].name
    } else {
        listed
    }
}

/// Writes the tools that are offered, as they stand in a prompt.
pub fn format_tool_block(tools: &[LlmToolDefinition]) -> (r: String)
    ensures
        r@ == tool_block(tools.deep_view()),
{
    let ghost all = tools.deep_view();
    assert(all.len() == tools.len());
    if tools.len() == 0 {
        return NO_TOOLS.to_string();
    }
    let mut lines: Vec<String> = Vec::new();
    let mut i: usize = 0;
    while i < tools.len()
        invariant
            i <= tools.len(),
            all == tools.deep_view(),
            lines.deep_view() == tool_lines(all).take(i as int),
        decreases tools.len() - i,
    {
        let tool = &tools[i];
        let mut line = "- tool: ".to_string();
        line.append(tool.name.as_str());
        line.append("\n  description: ");
        line.append(tool.description.as_str());
        line.append("\n  arguments schema: ");
        line.append(format_json(&tool.parameters).as_str());
        let ghost before = lines.deep_view();
        lines.push(line);
        assert(lines.deep_view() =~= before.push(line@));
        assert(all[i as int] == tool.deep_view());
        assert(lines.deep_view() =~= tool_lines(all).take(i + 1));
        i = i + 1;
    }
    assert(lines.deep_view() =~= tool_lines(all));
    let mut text = "Available tools:\n".to_string();
    text.append(join(lines.as_slice(), "\n").as_str());
    if tools.len() == 1 {
        text.append("\nOnly valid tool name for this request: ");
        assert(all[0] == tools@[0].deep_view());
        text.append(tools[0].name.as_str());
    }
    text
}

/// A world's view and the guide to its fields.
pub open spec fn world_details(world: WorldContext) -> Seq<char> {
    formatted(world.world_view) + "\n\nWorld fields:\n"@ + guide(world.world_schema)
}

/// Whether the world that is given, if any, has a schema with an end.
pub open spec fn world_is_finite(world: Option<WorldContext>) -> bool {
    world matches Some(world) ==> has_guide(world.world_schema)
}

fn format_world_details(world: &LlmWorldContext) -> (r: String)
    requires
        has_guide(content(world.world_schema)),
    ensures
        r@ == world_details(world.deep_view()),
{
    let mut text = format_json(&world.world_view);
    text.append("\n\nWorld fields:\n");
    text.append(format_schema_guide(&world.world_schema).as_str());
    text
}

/// How tools are to be called.
pub open spec fn calling_line(mode: LlmToolCallingMode) -> Seq<char> {
    match mode {
        LlmToolCallingMode::Disabled => "Tools are configured but disabled for this profile.\n"@,
        LlmToolCallingMode::Auto | LlmToolCallingMode::Native => {
            "Use native model tool calling when an action is required.\n"@
        },
        LlmToolCallingMode::AgenticXml => {
            "Use agentic XML-style tool calling when an action is required.\n"@
        },
        LlmToolCallingMode::Python => {
            "Use python-style tool calling when an action is required.\n"@
        },
    }
}

fn format_calling_line(mode: LlmToolCallingMode) -> (r: &'static str)
    ensures
        r@ == calling_line(mode),
{
    match mode {
        LlmToolCallingMode::Disabled => "Tools are configured but disabled for this profile.\n",
        LlmToolCallingMode::Auto | LlmToolCallingMode::Native => {
            "Use native model tool calling when an action is required.\n"
        },
        LlmToolCallingMode::AgenticXml => {
            "Use agentic XML-style tool calling when an action is required.\n"
        },
        LlmToolCallingMode::Python => "Use python-style tool calling when an action is required.\n",
    }
}

/// Who else is there, as one line, or no line.
pub open spec fn nearby(participants: Option<Seq<Seq<char>>>) -> Seq<Seq<char>> {
    match participants {
        Some(participants) => if participants.len() == 0 {
            seq![]
        } else {
            seq!["Nearby people: "@ + joined(participants, ", "@)]
        },
        None => seq![],
    }
}

/// A text with a line for who else is there, if anyone is.
pub open spec fn with_nearby(text: Seq<char>, participants: Option<Seq<Seq<char>>>) -> Seq<char> {
    let line = nearby(participants);
    if line.len() == 0 {
        text
    } else {
        text + line[0] + "\n"@
    }
}

fn format_nearby(participants: Option<&[String]>) -> (r: Option<String>)
    ensures
        match r {
            Some(line) => nearby(participants.deep_view()) == seq![line@],
            None => nearby(participants.deep_view()).len() == 0,
        },
{
    match participants {
        Some(participants) => {
            assert(participants.deep_view().len() == participants.len());
            if participants.len() == 0 {
                None
            } else {
                let mut line = "Nearby people: ".to_string();
                line.append(join(participants, ", ").as_str());
                Some(line)
            }
        },
        None => None,
    }
}

/// The system prompt of a structured turn.
pub open spec fn structured_system_prompt(
    agent: Seq<char>,
    tools: Seq<ToolDefinition>,
    world: Option<WorldContext>,
    participants: Option<Seq<Seq<char>>>,
    tool_calling: LlmToolCallingMode,
) -> Seq<char> {
    let contract = if tools.len() == 0 {
        ANSWER_ONLY@
    } else {
        ANSWER_OR_ACT@
    };
    let opening = "Agent: "@ + agent + "\n"@ + contract + "World context:\n"@ + (match world {
        Some(world) => world_details(world),
        None => NO_WORLD@,
    }) + "\nMemory facts and conversation history are supplied in the user message.\n"@;
    let surrounded = with_nearby(opening, participants);
    let instructed = if tools.len() == 0 {
        surrounded
    } else {
        surrounded + calling_line(tool_calling)
    };
    instructed + tool_block(tools)
}

/// The system prompt of a local chat.
pub open spec fn chat_system_prompt(
    agent: Seq<char>,
    world: Option<WorldContext>,
    participants: Option<Seq<Seq<char>>>,
) -> Seq<char> {
    with_nearby(
        identity(world) + CHAT_CONTRACT@ + legacy_format(agent, world) + "`.\n"@,
        participants,
    )
}

/// The system prompt of a turn.
pub open spec fn system_prompt(
    agent: Seq<char>,
    mode: LlmResponseMode,
    tools: Seq<ToolDefinition>,
    world: Option<WorldContext>,
    participants: Option<Seq<Seq<char>>>,
    tool_calling: LlmToolCallingMode,
) -> Seq<char> {
    match mode {
        LlmResponseMode::StructuredJson => structured_system_prompt(
            agent,
            tools,
            world,
            participants,
            tool_calling,
        ),
        LlmResponseMode::PlainTextChat => chat_system_prompt(agent, world, participants),
    }
}

/// Writes the system prompt of a turn.
pub fn build_turn_system_prompt(
    agent: &str,
    response_mode: LlmResponseMode,
    tools: &[LlmToolDefinition],
    world: Option<&LlmWorldContext>,
    session_participants: Option<&[String]>,
    tool_calling: LlmToolCallingMode,
) -> (r: String)
    requires
        response_mode == LlmResponseMode::StructuredJson ==> world_is_finite(world.deep_view()),
    ensures
        r@ == system_prompt(
            agent@,
            response_mode,
            tools.deep_view(),
            world.deep_view(),
            session_participants.deep_view(),
            tool_calling,
        ),
{
    match response_mode {
        LlmResponseMode::StructuredJson => {
            assert(tools.deep_view().len() == tools.len());
            let mut system = "Agent: ".to_string();
            system.append(agent);
            system.append("\n");
            system.append(
                if tools.len() == 0 {
                    ANSWER_ONLY
                } else {
                    ANSWER_OR_ACT
                },
            );
            system.append("World context:\n");
            match world {
                Some(world) => {
                    system.append(format_world_details(world).as_str());
                },
                None => {
                    system.append(NO_WORLD);
                },
            }
            system.append(
                "\nMemory facts and conversation history are supplied in the user message.\n",
            );
            if let Some(line) = format_nearby(session_participants) {
                system.append(line.as_str());
                system.append("\n");
            }
            if tools.len() > 0 {
                system.append(format_calling_line(tool_calling));
            }
            system.append(format_tool_block(tools).as_str());
            system
        },
        LlmResponseMode::PlainTextChat => {
            let mut system = build_plain_text_chat_response_preamble(
                agent,
                world,
                session_participants,
            );
            system.append(CHAT_CONTRACT);
            system.append(expected_plain_text_chat_response_format(agent, world).as_str());
            system.append("`.\n");
            if let Some(line) = format_nearby(session_participants) {
                system.append(line.as_str());
                system.append("\n");
            }
            system
        },
    }
}

/// The chat messages of the entries of a thread.
pub open spec fn chat_messages(
    agent: Seq<char>,
    thread: Option<Thread>,
    world: Option<WorldContext>,
    labels: Option<Map<Seq<char>, Seq<char>>>,
) -> Seq<Seq<char>> {
    match thread {
        Some(thread) => Seq::new(
            thread.entries.len(),
            |i: int| chat_message(agent, thread.entries[i], world, labels),
        ),
        None => seq![],
    }
}

/// The prompt of a local chat: who else is there, what was said, and what to say next.
pub open spec fn chat_prompt(
    agent: Seq<char>,
    thread: Option<Thread>,
    prompt: Seq<char>,
    world: Option<WorldContext>,
    participants: Option<Seq<Seq<char>>>,
    labels: Option<Map<Seq<char>, Seq<char>>>,
) -> Seq<char> {
    joined(
        nearby(participants) + chat_messages(agent, thread, world, labels) + seq![
            "Respond as "@ + speaker_label(agent, world) + CHAT_REQUEST@,
            "Current prompt:\n"@ + prompt,
        ],
        "\n"@,
    )
}

/// Writes the prompt of a local chat.
pub fn build_plain_text_chat_prompt(
    agent: &str,
    conversation: Option<&LlmConversationState>,
    prompt: &str,
    world: Option<&LlmWorldContext>,
    session_participants: Option<&[String]>,
    speaker_labels: Option<&Table<String, String>>,
) -> (r: String)
    ensures
        r@ == chat_prompt(
            agent@,
            conversation.deep_view(),
            prompt@,
            world.deep_view(),
            session_participants.deep_view(),
            speaker_labels.deep_view(),
        ),
{
    let ghost messages = chat_messages(
        agent@,
        conversation.deep_view(),
        world.deep_view(),
        speaker_labels.deep_view(),
    );
    let ghost others = nearby(session_participants.deep_view());
    let mut sections: Vec<String> = Vec::new();
    assert(sections.deep_view() =~= seq![]);
    if let Some(line) = format_nearby(session_participants) {
        sections.push(line);
        assert(sections.deep_view() =~= seq![line@]);
    }
    assert(sections.deep_view() =~= others);
    if let Some(thread) = conversation {
        let ghost entries = thread.entries.deep_view();
        assert(others + messages.take(0) =~= others);
        let mut i: usize = 0;
        while i < thread.entries.len()
            invariant
                i <= thread.entries.len(),
                entries == thread.entries.deep_view(),
                messages == chat_messages(
                    agent@,
                    Some(thread.deep_view()),
                    world.deep_view(),
                    speaker_labels.deep_view(),
                ),
                sections.deep_view() == others + messages.take(i as int),
            decreases thread.entries.len() - i,
        {
            let ghost before = sections.deep_view();
            let section = render_plain_text_chat_entry(
                agent,
                &thread.entries[i],
                world,
                speaker_labels,
            );
            sections.push(section);
            assert(sections.deep_view() =~= before.push(section@));
            assert(entries[i as int] == thread.entries@[i as int].deep_view());
            assert(messages[i as int] == section@);
            assert(sections.deep_view() =~= others + messages.take(i + 1));
            i = i + 1;
        }
        assert(messages.take(messages.len() as int) =~= messages);
    }
    assert(sections.deep_view() =~= others + messages);
    let mut request = "Respond as ".to_string();
    request.append(plain_text_chat_speaker_label(agent, world).as_str());
    request.append(CHAT_REQUEST);
    let mut current = "Current prompt:\n".to_string();
    current.append(prompt);
    let ghost before = sections.deep_view();
    sections.push(request);
    sections.push(current);
    assert(sections.deep_view() =~= before + seq![request@, current@]);
    join(sections.as_slice(), "\n")
}

/// The prompt of a structured turn.
pub open spec fn structured_prompt(
    prompt: Seq<char>,
    facts: Seq<Fact>,
    tools: Seq<ToolDefinition>,
    world: Option<WorldContext>,
    thread: Option<Thread>,
) -> Seq<char> {
    "World context:\n"@ + (match world {
        Some(world) => "World state:\n"@ + world_details(world),
        None => NO_WORLD@,
    }) + "\n\nMemory facts:\n"@ + fact_memory(facts) + "\n\nConversation context:\n"@ + (
    match thread {
        Some(thread) => conversation_text(thread),
        None => "No conversation history is active for this request."@,
    }) + "\n\n"@ + tool_block(tools) + "\n\nGame prompt:\n"@ + prompt + "\n"@
}

/// The prompt of a turn.
pub open spec fn turn_prompt(
    agent: Seq<char>,
    prompt: Seq<char>,
    mode: LlmResponseMode,
    facts: Seq<Fact>,
    tools: Seq<ToolDefinition>,
    world: Option<WorldContext>,
    thread: Option<Thread>,
    participants: Option<Seq<Seq<char>>>,
    labels: Option<Map<Seq<char>, Seq<char>>>,
) -> Seq<char> {
    match mode {
        LlmResponseMode::StructuredJson => structured_prompt(prompt, facts, tools, world, thread),
        LlmResponseMode::PlainTextChat => chat_prompt(
            agent,
            thread,
            prompt,
            world,
            participants,
            labels,
        ),
    }
}

/// Writes the prompt of a turn.
pub fn build_turn_prompt(
    agent: &str,
    prompt: &str,
    response_mode: LlmResponseMode,
    facts: &[LlmConversationFact],
    tools: &[LlmToolDefinition],
    world: Option<&LlmWorldContext>,
    conversation: Option<&LlmConversationState>,
    session_participants: Option<&[String]>,
    speaker_labels: Option<&Table<String, String>>,
) -> (r: String)
    requires
        response_mode == LlmResponseMode::StructuredJson ==> world_is_finite(world.deep_view()),
    ensures
        r@ == turn_prompt(
            agent@,
            prompt@,
            response_mode,
            facts.deep_view(),
            tools.deep_view(),
            world.deep_view(),
            conversation.deep_view(),
            session_participants.deep_view(),
            speaker_labels.deep_view(),
        ),
{
    match response_mode {
        LlmResponseMode::StructuredJson => {
            let world_block = match world {
                Some(world) => {
                    let mut text = "World state:\n".to_string();
                    text.append(format_world_details(world).as_str());
                    text
                },
                None => NO_WORLD.to_string(),
            };
            let conversation_block = match conversation {
                Some(conversation) => format_conversation_context(conversation),
                None => "No conversation history is active for this request.".to_string(),
            };
            let mut text = "World context:\n".to_string();
            text.append(world_block.as_str());
            text.append("\n\nMemory facts:\n");
            text.append(format_fact_memory(facts).as_str());
            text.append("\n\nConversation context:\n");
            text.append(conversation_block.as_str());
            text.append("\n\n");
            text.append(format_tool_block(tools).as_str());
            text.append("\n\nGame prompt:\n");
            text.append(prompt);
            text.append("\n");
            text
        },
        LlmResponseMode::PlainTextChat => build_plain_text_chat_prompt(
            agent,
            conversation,
            prompt,
            world,
            session_participants,
            speaker_labels,
        ),
    }
}

/// In a local chat neither the stored facts nor the tools have any part in what the model
/// is asked.
pub proof fn law_local_chat_knows_no_facts_and_no_tools(
    agent: Seq<char>,
    prompt: Seq<char>,
    facts: Seq<Fact>,
    other_facts: Seq<Fact>,
    tools: Seq<ToolDefinition>,
    other_tools: Seq<ToolDefinition>,
    world: Option<WorldContext>,
    thread: Option<Thread>,
    participants: Option<Seq<Seq<char>>>,
    labels: Option<Map<Seq<char>, Seq<char>>>,
    tool_calling: LlmToolCallingMode,
    other_tool_calling: LlmToolCallingMode,
)
    ensures
        ({
            let chat = LlmResponseMode::PlainTextChat;
            &&& turn_prompt(agent, prompt, chat, facts, tools, world, thread, participants, labels)
                == turn_prompt(
                agent,
                prompt,
                chat,
                other_facts,
                other_tools,
                world,
                thread,
                participants,
                labels,
            )
            &&& system_prompt(agent, chat, tools, world, participants, tool_calling)
                == system_prompt(
                agent,
                chat,
                other_tools,
                world,
                participants,
                other_tool_calling,
            )
        }),
{
}

} // verus!
