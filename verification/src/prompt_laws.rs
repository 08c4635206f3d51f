//! What the model is shown of what a turn is made from.

use crate::history::{conversation_text, entry_line};
use crate::history_laws::law_the_whole_history_is_shown;
use crate::json::{formatted, text_member};
use crate::model::LlmToolCallingMode;
use crate::prompt::{
    calling_line, chat_message, chat_messages, chat_prompt, chat_system_prompt, extraction_prompt,
    fact_line, fact_lines, fact_memory, identity, identity_lines, legacy_format, listed_label,
    nearby, speaker_label, structured_prompt, structured_system_prompt, tool_block, tool_line,
    tool_lines, with_nearby, world_details, world_text,
};
use crate::schema::guide;
use crate::text::{has_prefix, has_suffix, joined, occurs};
use crate::text_laws::{
    law_each_part_stands_in_the_joined_text, law_ends_of_sums,
    law_parts_of_parts_stand_in_the_whole, law_parts_stand_in_sums,
};
use crate::turn::{task_prompt, task_system_prompt, TurnTask};
use crate::types::{
    Entry, Fact, LlmConversationEntryKind, LlmResponseMode, Thread, ToolDefinition, WorldContext,
};
use vstd::prelude::*;

verus! {

/// A field of a world's view counts exactly where it is a text that is not empty, and
/// counts as that text.
pub proof fn law_world_texts_are_those_of_the_view(world: WorldContext, key: Seq<char>)
    ensures
        world_text(None, key) is None,
        world_text(Some(world), key) is Some <==> (text_member(world.world_view, key) matches Some(
            text,
        ) && text.len() > 0),
        world_text(Some(world), key) matches Some(text) ==> text_member(world.world_view, key)
            == Some(text),
{
}

/// An agent speaks under the name that its world gives it, and else under its id; another
/// participant under the name it is listed with, and else under its id.
pub proof fn law_speakers_have_their_names(
    agent: Seq<char>,
    world: Option<WorldContext>,
    labels: Option<Map<Seq<char>, Seq<char>>>,
)
    ensures
        match world_text(world, "agent_name"@) {
            Some(name) => speaker_label(agent, world) == name,
            None => speaker_label(agent, world) == agent,
        },
        labels matches Some(table) && table.dom().contains(agent) ==> listed_label(agent, labels)
            == labels->0[agent],
        labels is None || !labels->0.dom().contains(agent) ==> listed_label(agent, labels)
            == agent,
{
}

/// Who an agent is shows the name, the persona and the goal that its world gives, and is
/// empty where it gives none of them.
pub proof fn law_identities_show_what_the_world_gives(world: Option<WorldContext>)
    ensures
        world_text(world, "agent_name"@) matches Some(name) ==> occurs(identity(world), name),
        world_text(world, "persona"@) matches Some(persona) ==> occurs(identity(world), persona),
        world_text(world, "current_goal"@) matches Some(goal) ==> occurs(identity(world), goal),
        world_text(world, "agent_name"@) is None && world_text(world, "persona"@) is None
            && world_text(world, "current_goal"@) is None ==> identity(world).len() == 0,
{
    law_parts_stand_in_sums();
    reveal_strlit("");
    let lines = identity_lines(world);
    let name = world_text(world, "agent_name"@);
    let persona = world_text(world, "persona"@);
    let goal = world_text(world, "current_goal"@);
    if name is Some {
        assert(lines[0] == "Preferred agent name: "@ + name->0);
        lemma_line_is_shown(lines, 0, name->0);
    }
    let second: int = if name is Some {
        1
    } else {
        0
    };
    if persona is Some {
        assert(lines[second] == "Persona: "@ + persona->0);
        lemma_line_is_shown(lines, second, persona->0);
    }
    let third: int = if persona is Some {
        second + 1
    } else {
        second
    };
    if goal is Some {
        assert(lines[third] == "Current goal: "@ + goal->0);
        lemma_line_is_shown(lines, third, goal->0);
    }
}

proof fn lemma_line_is_shown(lines: Seq<Seq<char>>, i: int, part: Seq<char>)
    requires
        0 <= i < lines.len(),
        occurs(lines[i], part),
    ensures
        occurs(joined(lines, "\n"@), part),
        occurs(joined(lines, "\n"@) + "\n"@, part),
{
    law_parts_stand_in_sums();
    law_each_part_stands_in_the_joined_text(lines, "\n"@, i);
    law_parts_of_parts_stand_in_the_whole(joined(lines, "\n"@), lines[i], part);
}

/// A chat message ends with the whole text of its entry. The agent's own words are the
/// assistant's under the agent's name, a notice is the system's, and all else is a user's
/// under the speaker's name.
pub proof fn law_chat_messages_show_their_entries(
    agent: Seq<char>,
    entry: Entry,
    world: Option<WorldContext>,
    labels: Option<Map<Seq<char>, Seq<char>>>,
)
    ensures
        ({
            let message = chat_message(agent, entry, world, labels);
            &&& has_suffix(message, entry.text + "<|im_end|>"@)
            &&& entry.kind == LlmConversationEntryKind::Control ==> has_prefix(
                message,
                "<|im_start|>"@ + "system"@ + "\n"@,
            )
            &&& entry.kind != LlmConversationEntryKind::Control && entry.speaker == agent
                ==> has_prefix(
                message,
                "<|im_start|>"@ + "assistant"@ + "\n"@ + "**"@ + speaker_label(agent, world)
                    + ":** "@,
            )
            &&& entry.kind != LlmConversationEntryKind::Control && entry.speaker != agent
                ==> has_prefix(
                message,
                "<|im_start|>"@ + "user"@ + "\n"@ + "**"@ + listed_label(entry.speaker, labels)
                    + ":** "@,
            )
        }),
{
    law_ends_of_sums();
    let message = chat_message(agent, entry, world, labels);
    if entry.kind == LlmConversationEntryKind::Control {
        assert(message =~= ("<|im_start|>"@ + "system"@ + "\n"@) + (entry.text + "<|im_end|>"@));
    } else if entry.speaker == agent {
        assert(message =~= ("<|im_start|>"@ + "assistant"@ + "\n"@ + "**"@ + speaker_label(
            agent,
            world,
        ) + ":** "@) + (entry.text + "<|im_end|>"@));
    } else {
        assert(message =~= ("<|im_start|>"@ + "user"@ + "\n"@ + "**"@ + listed_label(
            entry.speaker,
            labels,
        ) + ":** "@) + (entry.text + "<|im_end|>"@));
    }
}

/// Of every fact the memory shows the text, the importance and the expiry, and one more
/// fact adds its line at the end and changes nothing before it.
pub proof fn law_all_facts_are_shown(facts: Seq<Fact>, fact: Fact)
    ensures
        forall|i: int|
            0 <= i < facts.len() ==> {
                &&& occurs(fact_memory(facts), (#[trigger] facts[i]).fact)
                &&& occurs(fact_memory(facts), facts[i].importance.rendered())
                &&& occurs(fact_memory(facts), facts[i].expiry)
            },
        fact_memory(facts.push(fact)) == if facts.len() == 0 {
            fact_line(fact)
        } else {
            fact_memory(facts) + "\n"@ + fact_line(fact)
        },
        has_suffix(fact_line(fact), fact.expiry),
{
    law_parts_stand_in_sums();
    law_ends_of_sums();
    let lines = fact_lines(facts);
    assert forall|i: int| 0 <= i < facts.len() implies {
        &&& occurs(fact_memory(facts), (#[trigger] facts[i]).fact)
        &&& occurs(fact_memory(facts), facts[i].importance.rendered())
        &&& occurs(fact_memory(facts), facts[i].expiry)
    } by {
        assert(lines[i] == fact_line(facts[i]));
        lemma_line_is_shown(lines, i, facts[i].fact);
        lemma_line_is_shown(lines, i, facts[i].importance.rendered());
        lemma_line_is_shown(lines, i, facts[i].expiry);
    }
    assert(fact_lines(facts.push(fact)).drop_last() =~= lines);
    assert(fact_lines(facts.push(fact)).last() == fact_line(fact));
}

/// Of every tool that is offered the prompt shows the name, the description and the schema
/// of the arguments.
pub proof fn law_all_tools_are_shown(tools: Seq<ToolDefinition>)
    ensures
        forall|i: int|
            0 <= i < tools.len() ==> {
                &&& occurs(tool_block(tools), (#[trigger] tools[i]).name)
                &&& occurs(tool_block(tools), tools[i].description)
                &&& occurs(tool_block(tools), formatted(tools[i].parameters))
            },
        tools.len() == 1 ==> has_suffix(tool_block(tools), tools[0].name),
{
    law_parts_stand_in_sums();
    law_ends_of_sums();
    let lines = tool_lines(tools);
    let all = joined(lines, "\n"@);
    assert(tools.len() > 0 ==> occurs(tool_block(tools), all));
    assert forall|i: int| 0 <= i < tools.len() implies {
        &&& occurs(tool_block(tools), (#[trigger] tools[i]).name)
        &&& occurs(tool_block(tools), tools[i].description)
        &&& occurs(tool_block(tools), formatted(tools[i].parameters))
    } by {
        assert(lines[i] == tool_line(tools[i]));
        lemma_line_is_shown(lines, i, tools[i].name);
        lemma_line_is_shown(lines, i, tools[i].description);
        lemma_line_is_shown(lines, i, formatted(tools[i].parameters));
        law_parts_of_parts_stand_in_the_whole(tool_block(tools), all, tools[i].name);
        law_parts_of_parts_stand_in_the_whole(tool_block(tools), all, tools[i].description);
        law_parts_of_parts_stand_in_the_whole(
            tool_block(tools),
            all,
            formatted(tools[i].parameters),
        );
    }
}

/// The lists of tools that two prompts show differ where one tool more is offered: it adds
/// its lines behind those of the others.
pub proof fn law_tools_are_listed_in_order(tools: Seq<ToolDefinition>, tool: ToolDefinition)
    requires
        tools.len() >= 2,
    ensures
        tool_block(tools.push(tool)) == tool_block(tools) + "\n"@ + tool_line(tool),
{
    assert(tool_lines(tools.push(tool)).drop_last() =~= tool_lines(tools));
    assert(tool_lines(tools.push(tool)).last() == tool_line(tool));
    assert(tool_block(tools.push(tool)) =~= tool_block(tools) + "\n"@ + tool_line(tool));
}

/// How tools are to be called names the format.
pub proof fn law_calling_lines_name_the_format(mode: LlmToolCallingMode)
    ensures
        mode == LlmToolCallingMode::Python ==> occurs(calling_line(mode), "python"@),
        mode == LlmToolCallingMode::AgenticXml ==> occurs(calling_line(mode), "XML"@),
        mode == LlmToolCallingMode::Native || mode == LlmToolCallingMode::Auto ==> occurs(
            calling_line(mode),
            "native"@,
        ),
        mode == LlmToolCallingMode::Disabled ==> occurs(calling_line(mode), "disabled"@),
{
    reveal_strlit("python");
    reveal_strlit("XML");
    reveal_strlit("native");
    reveal_strlit("disabled");
    match mode {
        LlmToolCallingMode::Python => {
            reveal_strlit("Use python-style tool calling when an action is required.\n");
            assert(calling_line(mode).subrange(4, 10) =~= "python"@);
            assert(crate::text::occurs_at(calling_line(mode), "python"@, 4));
        },
        LlmToolCallingMode::AgenticXml => {
            reveal_strlit("Use agentic XML-style tool calling when an action is required.\n");
            assert(calling_line(mode).subrange(12, 15) =~= "XML"@);
            assert(crate::text::occurs_at(calling_line(mode), "XML"@, 12));
        },
        LlmToolCallingMode::Disabled => {
            reveal_strlit("Tools are configured but disabled for this profile.\n");
            assert(calling_line(mode).subrange(25, 33) =~= "disabled"@);
            assert(crate::text::occurs_at(calling_line(mode), "disabled"@, 25));
        },
        _ => {
            reveal_strlit("Use native model tool calling when an action is required.\n");
            assert(calling_line(mode).subrange(4, 10) =~= "native"@);
            assert(crate::text::occurs_at(calling_line(mode), "native"@, 4));
        },
    }
}

/// The prompt of a structured turn shows the world's view and the guide to its fields, the
/// whole memory, the whole history and all tools, and ends with the game's prompt as it is.
pub proof fn law_structured_prompts_show_everything(
    prompt: Seq<char>,
    facts: Seq<Fact>,
    tools: Seq<ToolDefinition>,
    world: Option<WorldContext>,
    thread: Option<Thread>,
)
    ensures
        ({
            let shown = structured_prompt(prompt, facts, tools, world, thread);
            &&& has_suffix(shown, prompt + "\n"@)
            &&& occurs(shown, fact_memory(facts))
            &&& occurs(shown, tool_block(tools))
            &&& world matches Some(world) ==> occurs(shown, formatted(world.world_view)) && occurs(
                shown,
                guide(world.world_schema),
            )
            &&& thread matches Some(thread) ==> occurs(shown, conversation_text(thread)) && forall|
                i: int,
            |
                0 <= i < thread.entries.len() ==> occurs(
                    shown,
                    entry_line(#[trigger] thread.entries[i]),
                )
        }),
        structured_prompt(prompt, facts, tools, world, thread) == structured_prompt(
            seq![],
            facts,
            tools,
            world,
            thread,
        ).drop_last() + prompt + "\n"@,
{
    law_parts_stand_in_sums();
    law_ends_of_sums();
    let shown = structured_prompt(prompt, facts, tools, world, thread);
    let bare = structured_prompt(seq![], facts, tools, world, thread);
    reveal_strlit("\n");
    let front = bare.drop_last();
    assert(shown =~= front + prompt + "\n"@);
    assert(shown =~= front + (prompt + "\n"@));
    assert(has_suffix(shown, prompt + "\n"@));
    if let Some(world) = world {
        assert(occurs(world_details(world), formatted(world.world_view)));
        assert(occurs(world_details(world), guide(world.world_schema)));
        assert(occurs(shown, world_details(world)));
        law_parts_of_parts_stand_in_the_whole(
            shown,
            world_details(world),
            formatted(world.world_view),
        );
        law_parts_of_parts_stand_in_the_whole(
            shown,
            world_details(world),
            guide(world.world_schema),
        );
    }
    if let Some(thread) = thread {
        assert(occurs(shown, conversation_text(thread)));
        law_the_whole_history_is_shown(
            thread,
            seq![],
            seq![],
            LlmConversationEntryKind::Chat,
            false,
        );
        assert forall|i: int| 0 <= i < thread.entries.len() implies occurs(
            shown,
            entry_line(#[trigger] thread.entries[i]),
        ) by {
            law_parts_of_parts_stand_in_the_whole(
                shown,
                conversation_text(thread),
                entry_line(thread.entries[i]),
            );
        }
    }
}

proof fn lemma_nearby_is_shown(text: Seq<char>, people: Seq<Seq<char>>, i: int)
    requires
        0 <= i < people.len(),
    ensures
        occurs(with_nearby(text, Some(people)), people[i]),
        occurs(nearby(Some(people))[0], people[i]),
{
    law_parts_stand_in_sums();
    let names = joined(people, ", "@);
    law_each_part_stands_in_the_joined_text(people, ", "@, i);
    let line = nearby(Some(people))[0];
    assert(occurs(line, names));
    law_parts_of_parts_stand_in_the_whole(line, names, people[i]);
    let whole = with_nearby(text, Some(people));
    assert(occurs(whole, line));
    law_parts_of_parts_stand_in_the_whole(whole, line, people[i]);
}

/// The system prompt of a structured turn names the agent first, shows the world, everyone
/// who is near and all tools, and how to call them where there are any.
pub proof fn law_structured_system_prompts_show_everything(
    agent: Seq<char>,
    tools: Seq<ToolDefinition>,
    world: Option<WorldContext>,
    people: Seq<Seq<char>>,
    tool_calling: LlmToolCallingMode,
)
    ensures
        ({
            let alone = structured_system_prompt(agent, tools, world, None, tool_calling);
            let shown = structured_system_prompt(agent, tools, world, Some(people), tool_calling);
            &&& has_prefix(alone, "Agent: "@ + agent + "\n"@)
            &&& has_prefix(shown, "Agent: "@ + agent + "\n"@)
            &&& has_suffix(alone, tool_block(tools))
            &&& has_suffix(shown, tool_block(tools))
            &&& tools.len() > 0 ==> has_suffix(
                shown,
                calling_line(tool_calling) + tool_block(tools),
            )
            &&& tools.len() > 0 ==> has_suffix(
                alone,
                calling_line(tool_calling) + tool_block(tools),
            )
            &&& world matches Some(world) ==> occurs(alone, world_details(world)) && occurs(
                shown,
                world_details(world),
            )
            &&& forall|i: int|
                0 <= i < people.len() ==> occurs(shown, #[trigger] people[i])
            &&& people.len() == 0 ==> shown == alone
        }),
{
    law_parts_stand_in_sums();
    law_ends_of_sums();
    let alone = structured_system_prompt(agent, tools, world, None, tool_calling);
    let shown = structured_system_prompt(agent, tools, world, Some(people), tool_calling);
    let contract = if tools.len() == 0 {
        crate::prompt::ANSWER_ONLY@
    } else {
        crate::prompt::ANSWER_OR_ACT@
    };
    let opening = "Agent: "@ + agent + "\n"@ + contract + "World context:\n"@ + (match world {
        Some(world) => world_details(world),
        None => crate::prompt::NO_WORLD@,
    }) + "\nMemory facts and conversation history are supplied in the user message.\n"@;
    let surrounded = with_nearby(opening, Some(people));
    assert(has_prefix(opening, "Agent: "@ + agent + "\n"@));
    assert(has_prefix(surrounded, "Agent: "@ + agent + "\n"@));
    if tools.len() > 0 {
        assert(shown =~= surrounded + (calling_line(tool_calling) + tool_block(tools)));
        assert(alone =~= opening + (calling_line(tool_calling) + tool_block(tools)));
    }
    assert forall|i: int| 0 <= i < people.len() implies occurs(shown, #[trigger] people[i]) by {
        lemma_nearby_is_shown(opening, people, i);
        assert(occurs(surrounded, people[i]));
    }
}

/// The system prompt of a local chat says who the agent is and under which name it speaks,
/// and names everyone who is near.
pub proof fn law_chat_system_prompts_show_everything(
    agent: Seq<char>,
    world: Option<WorldContext>,
    people: Seq<Seq<char>>,
)
    ensures
        has_prefix(chat_system_prompt(agent, world, Some(people)), identity(world)),
        has_prefix(chat_system_prompt(agent, world, None), identity(world)),
        occurs(chat_system_prompt(agent, world, Some(people)), speaker_label(agent, world)),
        occurs(chat_system_prompt(agent, world, None), speaker_label(agent, world)),
        forall|i: int|
            0 <= i < people.len() ==> occurs(
                chat_system_prompt(agent, world, Some(people)),
                #[trigger] people[i],
            ),
{
    law_parts_stand_in_sums();
    law_ends_of_sums();
    let text = identity(world) + crate::prompt::CHAT_CONTRACT@ + legacy_format(agent, world)
        + "`.\n"@;
    let label = speaker_label(agent, world);
    assert(occurs(legacy_format(agent, world), label));
    assert(occurs(text, label)) by {
        assert(occurs(text, legacy_format(agent, world)));
        law_parts_of_parts_stand_in_the_whole(text, legacy_format(agent, world), label);
    }
    assert(has_prefix(text, identity(world)));
    assert forall|i: int| 0 <= i < people.len() implies occurs(
        chat_system_prompt(agent, world, Some(people)),
        #[trigger] people[i],
    ) by {
        lemma_nearby_is_shown(text, people, i);
    }
}

/// The prompt of a local chat shows who is near, everything that was said, in order, and
/// ends with the prompt as it is.
pub proof fn law_chat_prompts_show_everything(
    agent: Seq<char>,
    thread: Thread,
    prompt: Seq<char>,
    world: Option<WorldContext>,
    people: Seq<Seq<char>>,
    labels: Option<Map<Seq<char>, Seq<char>>>,
)
    ensures
        ({
            let shown = chat_prompt(agent, Some(thread), prompt, world, Some(people), labels);
            &&& has_suffix(shown, prompt)
            &&& forall|i: int|
                0 <= i < thread.entries.len() ==> occurs(
                    shown,
                    chat_message(agent, #[trigger] thread.entries[i], world, labels),
                )
            &&& forall|i: int| 0 <= i < people.len() ==> occurs(shown, #[trigger] people[i])
        }),
        has_suffix(chat_prompt(agent, None, prompt, world, None, labels), prompt),
{
    law_parts_stand_in_sums();
    law_ends_of_sums();
    let shown = chat_prompt(agent, Some(thread), prompt, world, Some(people), labels);
    let messages = chat_messages(agent, Some(thread), world, labels);
    let front = nearby(Some(people));
    let parts = front + messages + seq![
        "Respond as "@ + speaker_label(agent, world) + crate::prompt::CHAT_REQUEST@,
        "Current prompt:\n"@ + prompt,
    ];
    assert(parts.last() == "Current prompt:\n"@ + prompt);
    assert(has_suffix(parts.last(), prompt));
    assert(shown == joined(parts.drop_last(), "\n"@) + "\n"@ + parts.last());
    assert forall|i: int| 0 <= i < thread.entries.len() implies occurs(
        shown,
        chat_message(agent, #[trigger] thread.entries[i], world, labels),
    ) by {
        let k = front.len() + i;
        assert(parts[k] == messages[i]);
        law_each_part_stands_in_the_joined_text(parts, "\n"@, k);
    }
    assert forall|i: int| 0 <= i < people.len() implies occurs(shown, #[trigger] people[i]) by {
        lemma_nearby_is_shown(seq![], people, i);
        assert(parts[0] == front[0]);
        law_each_part_stands_in_the_joined_text(parts, "\n"@, 0);
        law_parts_of_parts_stand_in_the_whole(shown, parts[0], people[i]);
    }
    let plain = chat_prompt(agent, None, prompt, world, None, labels);
    let pair = nearby(None) + chat_messages(agent, None, world, labels) + seq![
        "Respond as "@ + speaker_label(agent, world) + crate::prompt::CHAT_REQUEST@,
        "Current prompt:\n"@ + prompt,
    ];
    assert(pair.last() == "Current prompt:\n"@ + prompt);
    assert(plain == joined(pair.drop_last(), "\n"@) + "\n"@ + pair.last());
}

/// One more entry in the thread of a local chat adds its message behind the others.
pub proof fn law_chat_messages_keep_their_order(
    agent: Seq<char>,
    thread: Thread,
    entry: Entry,
    world: Option<WorldContext>,
    labels: Option<Map<Seq<char>, Seq<char>>>,
)
    ensures
        chat_messages(
            agent,
            Some(Thread { entries: thread.entries.push(entry), ..thread }),
            world,
            labels,
        ) == chat_messages(agent, Some(thread), world, labels).push(
            chat_message(agent, entry, world, labels),
        ),
{
    assert(chat_messages(
        agent,
        Some(Thread { entries: thread.entries.push(entry), ..thread }),
        world,
        labels,
    ) =~= chat_messages(agent, Some(thread), world, labels).push(
        chat_message(agent, entry, world, labels),
    ));
}

/// The prompt of an extraction of facts ends with the text that they are drawn from.
pub proof fn law_extraction_prompts_show_their_text(input: Seq<char>)
    ensures
        has_suffix(extraction_prompt(input), input + "\n"@),
        extraction_prompt(input).take(crate::prompt::EXTRACTION_REQUEST@.len() as int)
            == crate::prompt::EXTRACTION_REQUEST@,
{
    law_ends_of_sums();
    assert(extraction_prompt(input) =~= crate::prompt::EXTRACTION_REQUEST@ + (input + "\n"@));
    assert(extraction_prompt(input).take(crate::prompt::EXTRACTION_REQUEST@.len() as int)
        =~= crate::prompt::EXTRACTION_REQUEST@);
}

/// What the model is asked for a task shows the task's own prompt at the end, and in a
/// structured turn its own facts, its own tools and its own agent.
pub proof fn law_tasks_are_shown_to_the_model(task: TurnTask, tool_calling: LlmToolCallingMode)
    ensures
        task.response_mode == LlmResponseMode::StructuredJson ==> {
            &&& has_suffix(task_prompt(task), task.prompt + "\n"@)
            &&& occurs(task_prompt(task), fact_memory(task.facts))
            &&& occurs(task_prompt(task), tool_block(task.tools))
            &&& task.conversation matches Some(thread) ==> occurs(
                task_prompt(task),
                conversation_text(thread),
            )
            &&& task_system_prompt(task, tool_calling) == structured_system_prompt(
                task.agent,
                task.tools,
                task.world,
                task.session_participants,
                tool_calling,
            )
        },
        task.response_mode == LlmResponseMode::PlainTextChat ==> {
            &&& task_prompt(task) == chat_prompt(
                task.agent,
                task.conversation,
                task.prompt,
                task.world,
                task.session_participants,
                task.speaker_labels,
            )
            &&& task_system_prompt(task, tool_calling) == chat_system_prompt(
                task.agent,
                task.world,
                task.session_participants,
            )
        },
{
    law_structured_prompts_show_everything(
        task.prompt,
        task.facts,
        task.tools,
        task.world,
        task.conversation,
    );
}

} // verus!
