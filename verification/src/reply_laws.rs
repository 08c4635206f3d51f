//! What a turn keeps of the reply that it is read from.

use crate::history::entry_line;
use crate::json::value_or_text;
use crate::playback::fact_store_prompt;
use crate::prompt::world_text;
use crate::reply::{
    accepted_calls, behind_label, cleaned_reply, gathered, kept_calls, message_calls, own_labels,
    reply_turn, said, settled, structured_turn, unlabelled, Candidate, Message, ModelCall,
};
use crate::text::{first_at, has_prefix, has_suffix, occurs, occurs_at, split_at_first, trimmed};
use crate::text_laws::{law_ends_of_sums, law_splitting_loses_nothing};
use crate::turn::{error_report, finished_turn, is_error, response_to, TurnTask};
use crate::types::{
    Entry, LlmConversationEntryKind, LlmResponseMode, ToolCall, ToolDefinition, Turn, Utterance,
    WorldContext,
};
use vstd::prelude::*;

verus! {

/// A reply without a label of its agent is said as it is, unless it is a bare bold marker.
pub proof fn law_replies_without_a_label_are_said_unchanged(
    agent: Seq<char>,
    world: Option<WorldContext>,
    output: Seq<char>,
)
    ensures
        unlabelled(output, own_labels(agent, world)) is None && trimmed(output) != "**"@ ==> said(
            agent,
            world,
            output,
        ) == output,
        !has_prefix(output, "**"@) && trimmed(output) != "**"@ ==> said(agent, world, output)
            == output,
{
}

/// An agent is silent only where it says so, bare or behind its label, or where its reply
/// is a bare bold marker; and it is silent there.
pub proof fn law_silence_is_never_made_up(
    agent: Seq<char>,
    world: Option<WorldContext>,
    output: Seq<char>,
)
    ensures
        said(agent, world, output) == "SILENT"@ <==> {
            ||| output == "SILENT"@
            ||| unlabelled(output, own_labels(agent, world)) == Some("SILENT"@)
            ||| unlabelled(output, own_labels(agent, world)) is None && trimmed(output) == "**"@
        },
{
    reveal_strlit("SILENT");
    reveal_strlit("**");
    assert("SILENT"@[0] == 'S');
    if output == "SILENT"@ && has_prefix(output, "**"@) {
        assert(output.take(2)[0] == '*');
    }
}

/// What an agent says behind its label is said without the label, whether the colon stands
/// outside or inside the bold text.
pub proof fn law_own_labels_are_taken_off(
    agent: Seq<char>,
    world: Option<WorldContext>,
    label: Seq<char>,
    message: Seq<char>,
)
    requires
        label == agent || world_text(world, "agent_name"@) == Some(label),
        trimmed(label) == label,
        forall|i: int| 0 <= i < label.len() ==> label[i] != '*' && label[i] != ':',
    ensures
        said(agent, world, "**"@ + label + "**:"@ + message) == trimmed(message),
        !occurs(label + ":**"@ + message, "**:"@) ==> said(
            agent,
            world,
            "**"@ + label + ":**"@ + message,
        ) == trimmed(message),
{
    let labels = own_labels(agent, world);
    law_labels_are_id_and_name(agent, world, label);
    assert("**:"@[0] == '*' && "**:"@.len() == 3) by {
        reveal_strlit("**:");
    }
    assert(":**"@[0] == ':' && ":**"@.len() == 3) by {
        reveal_strlit(":**");
    }
    lemma_split(label, "**:"@, message);
    lemma_split(label, ":**"@, message);
    lemma_marked(label + "**:"@ + message);
    lemma_marked(label + ":**"@ + message);
    assert("**"@ + (label + "**:"@ + message) =~= "**"@ + label + "**:"@ + message);
    assert("**"@ + (label + ":**"@ + message) =~= "**"@ + label + ":**"@ + message);
}

proof fn lemma_marked(rest: Seq<char>)
    ensures
        has_prefix("**"@ + rest, "**"@),
        ("**"@ + rest).skip("**"@.len() as int) == rest,
        "**"@ + rest != "SILENT"@,
{
    reveal_strlit("**");
    reveal_strlit("SILENT");
    assert(("**"@ + rest).take("**"@.len() as int) =~= "**"@);
    assert(("**"@ + rest).skip("**"@.len() as int) =~= rest);
    assert(("**"@ + rest)[0] == '*');
    assert("SILENT"@[0] == 'S');
}

proof fn lemma_split(label: Seq<char>, separator: Seq<char>, message: Seq<char>)
    requires
        separator.len() == 3,
        separator[0] == '*' || separator[0] == ':',
        forall|i: int| 0 <= i < label.len() ==> label[i] != '*' && label[i] != ':',
    ensures
        split_at_first(label + separator + message, separator) == Some((label, message)),
{
    let whole = label + separator + message;
    let n = label.len() as int;
    assert(whole.subrange(n, n + separator.len()) =~= separator);
    assert(occurs_at(whole, separator, n));
    assert forall|j: int| 0 <= j < n implies !occurs_at(whole, separator, j) by {
        if occurs_at(whole, separator, j) {
            assert(whole.subrange(j, j + separator.len())[0] == separator[0]);
            assert(whole[j] == label[j]);
        }
    }
    assert(first_at(whole, separator, n));
    let i = choose|i: int| first_at(whole, separator, i);
    assert(i == n) by {
        if i < n {
            assert(!occurs_at(whole, separator, i));
        } else if n < i {
            assert(!occurs_at(whole, separator, n));
        }
    }
    assert(whole.take(n) =~= label);
    assert(whole.skip(n + separator.len()) =~= message);
}

/// What is said in a thread, and what facts are stored from, is labelled with its speaker:
/// the label can be taken off again, and what is left is what was said.
pub proof fn law_lines_are_labelled_with_their_speakers(entry: Entry, utterance: Utterance)
    requires
        entry.kind == LlmConversationEntryKind::Chat,
        trimmed(entry.speaker) == entry.speaker,
        forall|i: int|
            0 <= i < entry.speaker.len() ==> entry.speaker[i] != '*' && entry.speaker[i] != ':',
        utterance.speaker == entry.speaker,
        utterance.text == entry.text,
        !occurs(entry.speaker + ":**"@ + (" "@ + entry.text), "**:"@),
    ensures
        unlabelled(entry_line(entry), seq![entry.speaker]) == Some(trimmed(" "@ + entry.text)),
        unlabelled(fact_store_prompt(utterance), seq![utterance.speaker]) == Some(
            trimmed(" "@ + utterance.text),
        ),
{
    let speaker = entry.speaker;
    let message = " "@ + entry.text;
    let labels = seq![speaker];
    assert(labels[0] == speaker);
    assert("**:"@[0] == '*' && "**:"@.len() == 3) by {
        reveal_strlit("**:");
    }
    assert(":**"@[0] == ':' && ":**"@.len() == 3) by {
        reveal_strlit(":**");
    }
    lemma_split(speaker, "**:"@, message);
    lemma_split(speaker, ":**"@, message);
    lemma_marked(speaker + "**:"@ + message);
    lemma_marked(speaker + ":**"@ + message);
    assert("**: "@ =~= "**:"@ + " "@) by {
        reveal_strlit("**: ");
        reveal_strlit("**:");
        reveal_strlit(" ");
    }
    assert(":** "@ =~= ":**"@ + " "@) by {
        reveal_strlit(":** ");
        reveal_strlit(":**");
        reveal_strlit(" ");
    }
    assert(entry_line(entry) =~= "**"@ + (speaker + "**:"@ + message));
    assert(fact_store_prompt(utterance) =~= "**"@ + (speaker + ":**"@ + message));
}

/// A label is taken off only where it is bold, has a colon and is accepted: then the reply
/// is made of the marker, the label, the separator and the message, and nothing is lost
/// but white space around them.
pub proof fn law_only_accepted_labels_are_taken_off(output: Seq<char>, labels: Seq<Seq<char>>)
    ensures
        unlabelled(output, labels) matches Some(said) ==> exists|
            label: Seq<char>,
            separator: Seq<char>,
            message: Seq<char>,
        |
            {
                &&& output == #[trigger] ("**"@ + label + separator + message)
                &&& separator == "**:"@ || separator == ":**"@
                &&& labels.contains(trimmed(label))
                &&& said == trimmed(message)
            },
{
    if unlabelled(output, labels) is Some {
        let rest = output.skip("**"@.len() as int);
        let separator = if behind_label(rest, "**:"@, labels) is Some {
            "**:"@
        } else {
            ":**"@
        };
        assert(behind_label(rest, separator, labels) is Some);
        let (label, message) = split_at_first(rest, separator)->0;
        law_splitting_loses_nothing(rest, separator);
        assert(output =~= "**"@ + rest) by {
            assert(output.take("**"@.len() as int) == "**"@);
            assert(output =~= output.take("**"@.len() as int) + rest);
        }
        assert("**"@ + rest =~= "**"@ + label + separator + message);
        assert(output == "**"@ + label + separator + message);
    }
}

/// The labels of an agent are its id and the name that its world gives it, and no others.
pub proof fn law_labels_are_id_and_name(
    agent: Seq<char>,
    world: Option<WorldContext>,
    label: Seq<char>,
)
    ensures
        own_labels(agent, world).contains(label) <==> label == agent || world_text(
            world,
            "agent_name"@,
        ) == Some(label),
{
    let labels = own_labels(agent, world);
    assert(labels[0] == agent);
    if world_text(world, "agent_name"@) is Some && world_text(world, "agent_name"@)->0 != agent {
        assert(labels[1] == world_text(world, "agent_name"@)->0);
    }
}

/// Whether a name is one of a tool's.
pub open spec fn names(tools: Seq<ToolDefinition>) -> Seq<Seq<char>> {
    tools.map_values(|tool: ToolDefinition| tool.name)
}

proof fn lemma_names(tools: Seq<ToolDefinition>, name: Seq<char>)
    ensures
        crate::reply::is_offered(tools, name) <==> names(tools).contains(name),
{
    if crate::reply::is_offered(tools, name) {
        let i = choose|i: int| 0 <= i < tools.len() && (#[trigger] tools[i]).name == name;
        assert(names(tools)[i] == name);
    }
    if names(tools).contains(name) {
        let i = choose|i: int| 0 <= i < names(tools).len() && names(tools)[i] == name;
        assert(tools[i].name == name);
    }
}

/// The calls that a backend hands over are taken in order, each for itself.
pub proof fn law_handed_over_calls_keep_their_order(
    calls: Seq<ModelCall>,
    more: Seq<ModelCall>,
    tools: Seq<ToolDefinition>,
)
    ensures
        accepted_calls(calls + more, tools) == accepted_calls(calls, tools) + accepted_calls(
            more,
            tools,
        ),
        message_calls(Some(calls + more), tools) == message_calls(Some(calls), tools)
            + message_calls(Some(more), tools),
    decreases more.len(),
{
    if more.len() == 0 {
        assert(calls + more =~= calls);
        assert(accepted_calls(calls, tools) + accepted_calls(more, tools) =~= accepted_calls(
            calls,
            tools,
        ));
    } else {
        law_handed_over_calls_keep_their_order(calls, more.drop_last(), tools);
        assert((calls + more).drop_last() =~= calls + more.drop_last());
        assert(accepted_calls(calls + more, tools) =~= accepted_calls(calls, tools)
            + accepted_calls(more, tools));
    }
}

/// A call that a backend hands over is taken exactly when its tool is offered, with the
/// tool and with what its arguments write; without calls there are none.
pub proof fn law_offered_tools_are_called_with_their_arguments(
    call: ModelCall,
    tools: Seq<ToolDefinition>,
)
    ensures
        message_calls(Some(seq![call]), tools) == if names(tools).contains(call.name) {
            seq![ToolCall { tool: call.name, arguments: value_or_text(call.arguments) }]
        } else {
            seq![]
        },
        message_calls(None, tools).len() == 0,
{
    lemma_names(tools, call.name);
    assert(seq![call].drop_last() =~= seq![]);
    assert(accepted_calls(seq![], tools) =~= seq![]);
    assert(message_calls(Some(seq![call]), tools) =~= if names(tools).contains(call.name) {
        seq![ToolCall { tool: call.name, arguments: value_or_text(call.arguments) }]
    } else {
        seq![]
    });
}

/// The calls of a turn are settled in order, each for itself.
pub proof fn law_settled_calls_keep_their_order(
    calls: Seq<ToolCall>,
    more: Seq<ToolCall>,
    tools: Seq<ToolDefinition>,
)
    ensures
        kept_calls(calls + more, tools) == kept_calls(calls, tools) + kept_calls(more, tools),
    decreases more.len(),
{
    if more.len() == 0 {
        assert(calls + more =~= calls);
        assert(kept_calls(calls, tools) + kept_calls(more, tools) =~= kept_calls(calls, tools));
    } else {
        law_settled_calls_keep_their_order(calls, more.drop_last(), tools);
        assert((calls + more).drop_last() =~= calls + more.drop_last());
        assert(kept_calls(calls + more, tools) =~= kept_calls(calls, tools) + kept_calls(
            more,
            tools,
        ));
    }
}

/// A call of an offered tool stays as it is, unless it writes a placeholder for the one
/// tool that is offered: then it calls that tool, with its own arguments. A call of any
/// other tool is dropped.
pub proof fn law_settling_one_call(call: ToolCall, tools: Seq<ToolDefinition>)
    ensures
        ({
            let stands_for_one = tools.len() == 1 && (call.tool == "name"@ || call.tool
                == "tool"@);
            &&& stands_for_one ==> kept_calls(seq![call], tools) == seq![
                ToolCall { tool: tools[0].name, arguments: call.arguments },
            ]
            &&& !stands_for_one && names(tools).contains(call.tool) ==> kept_calls(
                seq![call],
                tools,
            ) == seq![call]
            &&& !stands_for_one && !names(tools).contains(call.tool) ==> kept_calls(
                seq![call],
                tools,
            ).len() == 0
        }),
{
    lemma_names(tools, call.tool);
    assert(seq![call].drop_last() =~= seq![]);
    assert(kept_calls(seq![], tools) =~= seq![]);
    if tools.len() == 1 {
        assert(names(tools)[0] == tools[0].name);
        lemma_names(tools, tools[0].name);
        assert(names(tools).contains(tools[0].name));
    }
    assert(Seq::<ToolCall>::empty().push(call) =~= seq![call]);
    if tools.len() == 1 {
        let meant = ToolCall { tool: tools[0].name, arguments: call.arguments };
        assert(Seq::<ToolCall>::empty().push(meant) =~= seq![meant]);
    }
}

/// Settling a turn changes nothing but its calls, and in a structured reply keeps those
/// that all are of offered tools.
pub proof fn law_settling_concerns_calls_alone(
    turn: Turn,
    mode: LlmResponseMode,
    tools: Seq<ToolDefinition>,
)
    ensures
        settled(turn, mode, tools).agent == turn.agent,
        settled(turn, mode, tools).conversation_id == turn.conversation_id,
        settled(turn, mode, tools).response == turn.response,
        mode == LlmResponseMode::StructuredJson ==> settled(turn, mode, tools).tool_calls
            == kept_calls(turn.tool_calls, tools),
{
}

/// What the objects of a reply bring is what its front brings and then what its back
/// brings: the calls of both in order, and the response of the first that has one.
pub proof fn law_objects_are_gathered_in_order(front: Seq<Candidate>, back: Seq<Candidate>)
    ensures
        gathered(front + back).calls == gathered(front).calls + gathered(back).calls,
        gathered(front + back).response == if gathered(front).response is Some {
            gathered(front).response
        } else {
            gathered(back).response
        },
    decreases back.len(),
{
    if back.len() == 0 {
        assert(front + back =~= front);
        assert(gathered(front).calls + gathered(back).calls =~= gathered(front).calls);
    } else {
        law_objects_are_gathered_in_order(front, back.drop_last());
        assert((front + back).drop_last() =~= front + back.drop_last());
        assert(gathered(front + back).calls =~= gathered(front).calls + gathered(back).calls);
    }
}

/// An object that is a turn with a response or calls brings these; else one that is a call
/// brings that call; any other brings nothing.
pub proof fn law_what_one_object_brings(candidate: Candidate)
    ensures
        ({
            let found = gathered(seq![candidate]);
            match candidate.turn {
                Some(turn) if turn.response is Some || turn.tool_calls.len() > 0 => found.response
                    == turn.response && found.calls == turn.tool_calls,
                _ => found.response is None && found.calls == match candidate.call {
                    Some(call) => seq![call],
                    None => seq![],
                },
            }
        }),
{
    assert(seq![candidate].drop_last() =~= seq![]);
    let found = gathered(seq![candidate]);
    assert(gathered(Seq::<Candidate>::empty()).calls =~= seq![]);
    assert(seq![candidate].drop_last() == Seq::<Candidate>::empty());
    if let Some(turn) = candidate.turn {
        assert(Seq::<ToolCall>::empty() + turn.tool_calls =~= turn.tool_calls);
    }
    if let Some(call) = candidate.call {
        assert(Seq::<ToolCall>::empty().push(call) =~= seq![call]);
    }
}

/// A structured reply whose objects bring calls is a turn with those calls that says
/// nothing; one whose objects bring a response alone says it; one whose objects bring
/// nothing says its text.
pub proof fn law_structured_replies(
    agent: Seq<char>,
    conversation_id: Option<Seq<char>>,
    cleaned: Seq<char>,
    candidates: Seq<Candidate>,
)
    ensures
        ({
            let turn = structured_turn(agent, conversation_id, cleaned, candidates);
            let found = gathered(candidates);
            &&& turn.agent == agent
            &&& turn.conversation_id == conversation_id
            &&& turn.tool_calls == found.calls
            &&& turn.response.len() > 0 ==> turn.tool_calls.len() == 0
            &&& found.calls.len() == 0 && found.response is Some ==> turn.response
                == found.response->0
            &&& found.calls.len() == 0 && found.response is None ==> turn.response == cleaned
        }),
{
    reveal_strlit("");
}

/// A turn belongs to the agent and the conversation that it was asked of, and calls the
/// offered tools that the message calls. Where there are such calls, or in a local chat,
/// it says what the message does: trimmed, out of its code fence, and in a chat without
/// the agent's label.
pub proof fn law_turns_are_read_from_the_message(
    agent: Seq<char>,
    conversation_id: Option<Seq<char>>,
    mode: LlmResponseMode,
    tools: Seq<ToolDefinition>,
    world: Option<WorldContext>,
    message: Message,
    candidates: Seq<Candidate>,
)
    ensures
        ({
            let turn = reply_turn(
                agent,
                conversation_id,
                mode,
                tools,
                world,
                message,
                candidates,
            );
            let calls = message_calls(message.tool_calls, tools);
            &&& turn.agent == agent
            &&& turn.conversation_id == conversation_id
            &&& calls.len() > 0 || mode == LlmResponseMode::PlainTextChat ==> turn.tool_calls
                == calls
            &&& mode == LlmResponseMode::PlainTextChat ==> turn.response == said(
                agent,
                world,
                cleaned_reply(message),
            )
            &&& mode == LlmResponseMode::StructuredJson && calls.len() > 0 ==> turn.response
                == cleaned_reply(message)
            &&& mode == LlmResponseMode::StructuredJson && calls.len() == 0 ==> turn.tool_calls
                == gathered(candidates).calls
        }),
{
}

/// The turn that comes of a task belongs to the task's agent and conversation; in a local
/// chat it says what the agent says in the reply, and calls nothing.
pub proof fn law_turns_answer_their_task(
    task: TurnTask,
    message: Message,
    candidates: Seq<Candidate>,
)
    ensures
        finished_turn(task, message, candidates).agent == task.agent,
        finished_turn(task, message, candidates).conversation_id == task.conversation_id,
        task.response_mode == LlmResponseMode::PlainTextChat ==> finished_turn(
            task,
            message,
            candidates,
        ).response == said(task.agent, task.world, cleaned_reply(message)) && finished_turn(
            task,
            message,
            candidates,
        ).tool_calls.len() == 0,
        task.response_mode == LlmResponseMode::StructuredJson && message_calls(
            message.tool_calls,
            task.tools,
        ).len() == 0 ==> finished_turn(task, message, candidates).tool_calls == kept_calls(
            gathered(candidates).calls,
            task.tools,
        ),
        task.response_mode == LlmResponseMode::StructuredJson && gathered(candidates).calls.len()
            == 0 && gathered(candidates).response is Some && message_calls(
            message.tool_calls,
            task.tools,
        ).len() == 0 ==> finished_turn(task, message, candidates).response == gathered(
            candidates,
        ).response->0,
{
}

/// The game is told of a turn as it is: its agent, its conversation and all its calls, and
/// its text exactly where there is one and nothing is called.
pub proof fn law_the_game_is_told_of_the_turn(turn: Turn)
    ensures
        response_to(turn).agent == turn.agent,
        response_to(turn).conversation_id == turn.conversation_id,
        response_to(turn).tool_calls == turn.tool_calls,
        response_to(turn).response is Some <==> turn.tool_calls.len() == 0 && turn.response.len()
            > 0,
        response_to(turn).response matches Some(text) ==> text == turn.response,
{
}

/// The report of an error ends with its reason; what is no such report is not taken for
/// one.
pub proof fn law_error_reports_give_the_reason(reason: Seq<char>, response: Seq<char>)
    ensures
        has_suffix(error_report(reason), reason),
        is_error(response) ==> has_prefix(response, "LLM error:"@),
        has_prefix(response, "LLM error:"@) ==> is_error(response),
{
    law_ends_of_sums();
}

} // verus!
