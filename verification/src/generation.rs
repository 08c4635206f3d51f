//! Conversations that are generated in one piece.

use crate::json::{data_of, find_text, text_member};
use crate::model::{mode_name, tool_calling_mode_display, LlmToolCallingMode};
use crate::text::{
    concatenated, contains_text, decimal, decimal_text, has_prefix, has_suffix,
    law_trim_is_idempotent, trim, trimmed,
};
use crate::types::{outcome, LlmWorldContext, PlannedUtterance, Utterance, WorldContext};
use vstd::prelude::*;

verus! {

/// How many utterances a generated conversation may have.
pub const GENERATED_CONVERSATION_MAX_UTTERANCES: usize = 6;

/// What the generation of a conversation is asked first.
pub const GENERATION_REQUEST: &'static str =
    "Generate a complete short in-world conversation for the provided participants.\n\
Write the whole exchange, not a single reply.\n\
Use the participant information below to shape what each person says.\n\
Make the conversation feel like these specific participants talking to each other about the situation.\n\
Return exactly one JSON object.\n\
No extra text.\n\
The JSON object must contain only one field: `utterances`.\n\
`utterances` must be an array of objects.\n\
Each utterance object must contain a `speaker` string field and a `text` string field.\n\
It may also contain a `tool_calls` array for proposed actions.\n\
Each `speaker` must exactly match one of the provided participant ids.\n\
Each `text` must be spoken dialogue only, with no speaker prefix.\n\
If an utterance combines spoken dialogue and an action, keep the dialogue in `text` and put the action in `tool_calls`.\n\
Only leave `text` empty when the utterance is purely an action beat with no spoken line.\n\
Do not include markdown.\n\
Do not include narration or stage directions.\n";

/// What a generated conversation must be like.
pub const GENERATION_REQUIREMENTS: &'static str = "Conversation requirements:\n\
- The output should be a full conversation arc for this moment.\n\
- Ground the dialogue in the initial situation.\n\
- Let the participants' personas and current goals influence their wording and priorities.\n\
- Prefer including every participant at least once when that fits within the utterance cap.\n\
- Keep each line as spoken dialogue when speech is present, and pair that dialogue with `tool_calls` when the speaker is also acting.\n\
- Do not narrate actions in `text`; use `tool_calls` for proposed actions, but keep the speaker's line in `text` when there is one.\n\n";

/// An example of a generated conversation.
pub const GENERATION_EXAMPLE: &'static str =
    "\nOutput example:\n{\"utterances\":[{\"speaker\":\"agent_alpha\",\"text\":\"Move to the bridge, but stay low.\",\"tool_calls\":[{\"tool\":\"secure_bridge_approach\",\"arguments\":{\"approach\":\"east\"}}]},{\"speaker\":\"agent_bravo\",\"text\":\"I’m warning you, the eastern path is exposed.\",\"tool_calls\":[{\"tool\":\"warn_about_exposed_path\",\"arguments\":{\"path\":\"eastern\",\"severity\":\"high\"}}]}]}\n";

/// A participant of a generated conversation.
#[derive(Debug, PartialEq, Eq)]
pub struct ConversationParticipantProfile {
    pub id: String,
    pub display_name: String,
    pub persona: String,
    pub current_goal: String,
}

/// What a [`ConversationParticipantProfile`] holds.
#[verifier::ext_equal]
pub struct Participant {
    pub id: Seq<char>,
    pub display_name: Seq<char>,
    pub persona: Seq<char>,
    pub current_goal: Seq<char>,
}

impl DeepView for ConversationParticipantProfile {
    type V = Participant;

    open spec fn deep_view(&self) -> Participant {
        Participant {
            id: self.id@,
            display_name: self.display_name@,
            persona: self.persona@,
            current_goal: self.current_goal@,
        }
    }
}

impl Clone for ConversationParticipantProfile {
    fn clone(&self) -> (r: Self)
        ensures
            r.deep_view() == self.deep_view(),
    {
        ConversationParticipantProfile {
            id: self.id.clone(),
            display_name: self.display_name.clone(),
            persona: self.persona.clone(),
            current_goal: self.current_goal.clone(),
        }
    }
}

/// What the generation of a conversation starts from.
#[derive(Debug, PartialEq, Eq)]
pub struct ConversationGenerationRequest {
    pub session_id: String,
    pub generation: u64,
    pub participants: Vec<String>,
    pub initial_message: String,
    pub facts: Vec<String>,
    pub participant_profiles: Vec<ConversationParticipantProfile>,
    pub tool_calling: LlmToolCallingMode,
}

/// What a [`ConversationGenerationRequest`] holds.
#[verifier::ext_equal]
pub struct GenerationRequest {
    pub session_id: Seq<char>,
    pub generation: u64,
    pub participants: Seq<Seq<char>>,
    pub initial_message: Seq<char>,
    pub facts: Seq<Seq<char>>,
    pub participant_profiles: Seq<Participant>,
    pub tool_calling: LlmToolCallingMode,
}

impl DeepView for ConversationGenerationRequest {
    type V = GenerationRequest;

    open spec fn deep_view(&self) -> GenerationRequest {
        GenerationRequest {
            session_id: self.session_id@,
            generation: self.generation,
            participants: self.participants.deep_view(),
            initial_message: self.initial_message@,
            facts: self.facts.deep_view(),
            participant_profiles: self.participant_profiles.deep_view(),
            tool_calling: self.tool_calling,
        }
    }
}

impl Clone for ConversationGenerationRequest {
    fn clone(&self) -> (r: Self)
        ensures
            r.deep_view() == self.deep_view(),
    {
        let participants = self.participants.clone();
        assert(participants.deep_view() =~= self.participants.deep_view());
        let facts = self.facts.clone();
        assert(facts.deep_view() =~= self.facts.deep_view());
        let participant_profiles = self.participant_profiles.clone();
        assert(participant_profiles.deep_view() =~= self.participant_profiles.deep_view());
        ConversationGenerationRequest {
            session_id: self.session_id.clone(),
            generation: self.generation,
            participants,
            initial_message: self.initial_message.clone(),
            facts,
            participant_profiles,
            tool_calling: self.tool_calling,
        }
    }
}

/// The participants in order, each once.
pub open spec fn deduped(participants: Seq<Seq<char>>) -> Seq<Seq<char>>
    decreases participants.len(),
{
    if participants.len() == 0 {
        seq![]
    } else {
        let before = deduped(participants.drop_last());
        if before.contains(participants.last()) {
            before
        } else {
            before.push(participants.last())
        }
    }
}

/// The participants in order, each once.
pub fn dedupe_participants(participants: Vec<String>) -> (r: Vec<String>)
    ensures
        r.deep_view() == deduped(participants.deep_view()),
{
    let ghost all = participants.deep_view();
    let mut ordered: Vec<String> = Vec::new();
    let mut i: usize = 0;
    assert(all.take(0) =~= seq![]);
    assert(ordered.deep_view() =~= seq![]);
    while i < participants.len()
        invariant
            i <= participants.len(),
            all == participants.deep_view(),
            ordered.deep_view() == deduped(all.take(i as int)),
        decreases participants.len() - i,
    {
        assert(all.take(i + 1).drop_last() =~= all.take(i as int));
        assert(all.take(i + 1).last() == participants@[i as int]@);
        if !contains_text(ordered.as_slice(), participants[i].as_str()) {
            let ghost before = ordered.deep_view();
            let participant = participants[i].clone();
            ordered.push(participant);
            assert(ordered.deep_view() =~= before.push(participant@));
        }
        i = i + 1;
    }
    assert(all.take(all.len() as int) =~= all);
    ordered
}

/// Each participant is kept, and none twice.
pub proof fn law_participants_are_kept_once(participants: Seq<Seq<char>>)
    ensures
        deduped(participants).no_duplicates(),
        forall|id: Seq<char>| #[trigger]
            deduped(participants).contains(id) <==> participants.contains(id),
        deduped(participants).len() == 0 <==> participants.len() == 0,
    decreases participants.len(),
{
    if participants.len() > 0 {
        let shorter = participants.drop_last();
        let last = participants.last();
        law_participants_are_kept_once(shorter);
        let before = deduped(shorter);
        let after = deduped(participants);
        assert forall|id: Seq<char>| #[trigger] after.contains(id) <==> participants.contains(
            id,
        ) by {
            assert(participants =~= shorter.push(last));
            assert(participants.contains(id) <==> shorter.contains(id) || id == last) by {
                if shorter.contains(id) {
                    let k = choose|k: int| 0 <= k < shorter.len() && shorter[k] == id;
                    assert(participants[k] == id);
                }
                assert(participants[participants.len() - 1] == last);
                if participants.contains(id) && id != last {
                    let k = choose|k: int| 0 <= k < participants.len() && participants[k] == id;
                    assert(shorter[k] == id);
                }
            }
            assert(before.contains(id) <==> shorter.contains(id));
            if !before.contains(last) {
                assert(after[after.len() - 1] == last);
                if before.contains(id) {
                    let k = choose|k: int| 0 <= k < before.len() && before[k] == id;
                    assert(after[k] == id);
                }
                if after.contains(id) && id != last {
                    let k = choose|k: int| 0 <= k < after.len() && after[k] == id;
                    assert(before[k] == id);
                }
            }
        }
        assert(participants[participants.len() - 1] == last);
        assert(after.contains(last));
    }
}

proof fn lemma_deduped_of_distinct(participants: Seq<Seq<char>>)
    requires
        participants.no_duplicates(),
    ensures
        deduped(participants) == participants,
    decreases participants.len(),
{
    if participants.len() > 0 {
        let shorter = participants.drop_last();
        lemma_deduped_of_distinct(shorter);
        if shorter.contains(participants.last()) {
            let k = choose|k: int| 0 <= k < shorter.len() && shorter[k] == participants.last();
            assert(participants[k] == participants[participants.len() - 1]);
        }
        assert(shorter.push(participants.last()) =~= participants);
    } else {
        assert(participants =~= seq![]);
    }
}

/// Participants that are listed once stay as they are.
pub proof fn law_deduping_is_idempotent(participants: Seq<Seq<char>>)
    ensures
        deduped(deduped(participants)) == deduped(participants),
{
    law_participants_are_kept_once(participants);
    lemma_deduped_of_distinct(deduped(participants));
}

/// The trimmed text of a field of a world's view, if it is there and not blank.
pub open spec fn world_value(world: Option<WorldContext>, field: Seq<char>) -> Option<Seq<char>> {
    match world {
        Some(world) => match text_member(world.world_view, field) {
            Some(text) => if trimmed(text).len() == 0 {
                None
            } else {
                Some(trimmed(text))
            },
            None => None,
        },
        None => None,
    }
}

/// The trimmed text of a field of a world's view, if it is there and not blank.
pub fn world_string_value(world: Option<&LlmWorldContext>, field: &str) -> (r: Option<String>)
    ensures
        r.deep_view() == world_value(world.deep_view(), field@),
{
    match world {
        Some(world) => {
            let data = data_of(&world.world_view);
            match find_text(&data, field) {
                Some(text) => {
                    let text = trim(text);
                    if text.unicode_len() == 0 {
                        None
                    } else {
                        Some(text.to_string())
                    }
                },
                None => None,
            }
        },
        None => None,
    }
}

/// The name that a world gives its agent, or the fallback.
pub open spec fn display_name(world: Option<WorldContext>, fallback: Seq<char>) -> Seq<char> {
    match world_value(world, "agent_name"@) {
        Some(name) => name,
        None => fallback,
    }
}

/// The name that a world gives its agent, or the fallback.
pub fn world_display_name(world: Option<&LlmWorldContext>, fallback: &str) -> (r: String)
    ensures
        r@ == display_name(world.deep_view(), fallback@),
{
    match world_string_value(world, "agent_name") {
        Some(name) => name,
        None => fallback.to_string(),
    }
}

/// The trimmed text of a field of a world's view, or nothing.
pub open spec fn world_field(world: Option<WorldContext>, field: Seq<char>) -> Seq<char> {
    match world_value(world, field) {
        Some(text) => text,
        None => ""@,
    }
}

/// The trimmed text of a field of a world's view, or nothing.
pub fn world_string_field(world: Option<&LlmWorldContext>, field: &str) -> (r: String)
    ensures
        r@ == world_field(world.deep_view(), field@),
{
    match world_string_value(world, field) {
        Some(text) => text,
        None => "".to_string(),
    }
}

/// A participant as its world describes it.
pub open spec fn participant_of(id: Seq<char>, world: Option<WorldContext>) -> Participant {
    Participant {
        id,
        display_name: display_name(world, id),
        persona: world_field(world, "persona"@),
        current_goal: world_field(world, "current_goal"@),
    }
}

/// Describes a participant as its world does.
pub fn participant_profile(id: &str, world: Option<&LlmWorldContext>) -> (r:
    ConversationParticipantProfile)
    ensures
        r.deep_view() == participant_of(id@, world.deep_view()),
{
    ConversationParticipantProfile {
        id: id.to_string(),
        display_name: world_display_name(world, id),
        persona: world_string_field(world, "persona"),
        current_goal: world_string_field(world, "current_goal"),
    }
}

/// A text, or a placeholder for a blank one.
pub open spec fn or_placeholder(value: Seq<char>) -> Seq<char> {
    if trimmed(value).len() == 0 {
        "unspecified"@
    } else {
        value
    }
}

/// A text, or a placeholder for a blank one.
pub fn empty_to_placeholder<'a>(value: &'a str) -> (r: &'a str)
    ensures
        r@ == or_placeholder(value@),
{
    if trim(value).unicode_len() == 0 {
        "unspecified"
    } else {
        value
    }
}

/// The line of a fact from prior rounds, or none for a blank one.
pub open spec fn prior_fact_line(fact: Seq<char>) -> Seq<char> {
    if trimmed(fact).len() == 0 {
        seq![]
    } else {
        "- "@ + trimmed(fact) + "\n"@
    }
}

/// The facts from prior rounds, as they stand in a prompt.
pub open spec fn prior_facts(facts: Seq<Seq<char>>) -> Seq<char> {
    if facts.len() == 0 {
        seq![]
    } else {
        "\n\nConversation facts gathered from prior rounds:\n"@ + concatenated(
            Seq::new(facts.len(), |i: int| prior_fact_line(facts[i])),
        )
    }
}

/// The lines of a participant.
pub open spec fn participant_lines(participant: Participant) -> Seq<char> {
    "- display_name: "@ + participant.display_name + "\n  persona: "@ + or_placeholder(
        participant.persona,
    ) + "\n  current_goal: "@ + or_placeholder(participant.current_goal) + "\n"@
}

/// The line of the id of a participant.
pub open spec fn id_line(participant: Participant) -> Seq<char> {
    "- "@ + participant.id + "\n"@
}

/// What the generation of a conversation is asked.
pub open spec fn generation_prompt(request: GenerationRequest) -> Seq<char> {
    GENERATION_REQUEST@ + "Active tool-calling format for proposed actions: "@ + mode_name(
        request.tool_calling,
    ) + ".\n"@ + "Produce at most "@ + decimal(GENERATED_CONVERSATION_MAX_UTTERANCES as nat)
        + " utterances.\n\n"@ + GENERATION_REQUIREMENTS@ + "Initial situation:\n"@
        + request.initial_message + prior_facts(request.facts)
        + "\n\nParticipant information:\n"@ + concatenated(
        Seq::new(
            request.participant_profiles.len(),
            |i: int| participant_lines(request.participant_profiles[i]),
        ),
    ) + "\nValid speaker ids for `speaker` fields:\n"@ + concatenated(
        Seq::new(
            request.participant_profiles.len(),
            |i: int| id_line(request.participant_profiles[i]),
        ),
    ) + GENERATION_EXAMPLE@
}

fn append_prior_facts(content: &mut String, facts: &Vec<String>)
    ensures
        final(content)@ == old(content)@ + prior_facts(facts.deep_view()),
{
    let ghost start = content@;
    let ghost all = facts.deep_view();
    assert(all.len() == facts.len());
    if facts.len() == 0 {
        assert(start + seq![] =~= start);
        return;
    }
    let ghost heading = "\n\nConversation facts gathered from prior rounds:\n"@;
    let ghost lines = Seq::new(all.len(), |i: int| prior_fact_line(all[i]));
    content.append("\n\nConversation facts gathered from prior rounds:\n");
    let mut i: usize = 0;
    assert(lines.take(0) =~= seq![]);
    assert(content@ =~= start + (heading + concatenated(lines.take(0))));
    while i < facts.len()
        invariant
            i <= facts.len(),
            all == facts.deep_view(),
            lines == Seq::new(all.len(), |i: int| prior_fact_line(all[i])),
            content@ == start + (heading + concatenated(lines.take(i as int))),
        decreases facts.len() - i,
    {
        assert(lines.take(i + 1).drop_last() =~= lines.take(i as int));
        let fact = trim(facts[i].as_str());
        if fact.unicode_len() > 0 {
            content.append("- ");
            content.append(fact);
            content.append("\n");
        }
        assert(content@ =~= start + (heading + concatenated(lines.take(i + 1))));
        i = i + 1;
    }
    assert(lines.take(lines.len() as int) =~= lines);
}

fn append_participants(content: &mut String, participants: &Vec<ConversationParticipantProfile>)
    ensures
        final(content)@ == old(content)@ + concatenated(
            Seq::new(
                participants.deep_view().len(),
                |i: int| participant_lines(participants.deep_view()[i]),
            ),
        ),
{
    let ghost start = content@;
    let ghost all = participants.deep_view();
    let ghost lines = Seq::new(all.len(), |i: int| participant_lines(all[i]));
    let mut i: usize = 0;
    assert(lines.take(0) =~= seq![]);
    assert(content@ =~= start + concatenated(lines.take(0)));
    while i < participants.len()
        invariant
            i <= participants.len(),
            all == participants.deep_view(),
            lines == Seq::new(all.len(), |i: int| participant_lines(all[i])),
            content@ == start + concatenated(lines.take(i as int)),
        decreases participants.len() - i,
    {
        assert(lines.take(i + 1).drop_last() =~= lines.take(i as int));
        let participant = &participants[i];
        assert(all[i as int] == participant.deep_view());
        content.append("- display_name: ");
        content.append(participant.display_name.as_str());
        content.append("\n  persona: ");
        content.append(empty_to_placeholder(participant.persona.as_str()));
        content.append("\n  current_goal: ");
        content.append(empty_to_placeholder(participant.current_goal.as_str()));
        content.append("\n");
        assert(content@ =~= start + concatenated(lines.take(i + 1)));
        i = i + 1;
    }
    assert(lines.take(lines.len() as int) =~= lines);
    assert(lines =~= Seq::new(
        participants.deep_view().len(),
        |i: int| participant_lines(participants.deep_view()[i]),
    ));
}

fn append_ids(content: &mut String, participants: &Vec<ConversationParticipantProfile>)
    ensures
        final(content)@ == old(content)@ + concatenated(
            Seq::new(
                participants.deep_view().len(),
                |i: int| id_line(participants.deep_view()[i]),
            ),
        ),
{
    let ghost start = content@;
    let ghost all = participants.deep_view();
    let ghost lines = Seq::new(all.len(), |i: int| id_line(all[i]));
    let mut i: usize = 0;
    assert(lines.take(0) =~= seq![]);
    assert(content@ =~= start + concatenated(lines.take(0)));
    while i < participants.len()
        invariant
            i <= participants.len(),
            all == participants.deep_view(),
            lines == Seq::new(all.len(), |i: int| id_line(all[i])),
            content@ == start + concatenated(lines.take(i as int)),
        decreases participants.len() - i,
    {
        assert(lines.take(i + 1).drop_last() =~= lines.take(i as int));
        assert(all[i as int] == participants@[i as int].deep_view());
        content.append("- ");
        content.append(participants[i].id.as_str());
        content.append("\n");
        assert(content@ =~= start + concatenated(lines.take(i + 1)));
        i = i + 1;
    }
    assert(lines.take(lines.len() as int) =~= lines);
    assert(lines =~= Seq::new(
        participants.deep_view().len(),
        |i: int| id_line(participants.deep_view()[i]),
    ));
}

/// Writes what the generation of a conversation is asked.
pub fn build_generated_conversation_prompt(request: &ConversationGenerationRequest) -> (r: String)
    ensures
        r@ == generation_prompt(request.deep_view()),
{
    let mut content = GENERATION_REQUEST.to_string();
    content.append("Active tool-calling format for proposed actions: ");
    content.append(tool_calling_mode_display(request.tool_calling));
    content.append(".\n");
    content.append("Produce at most ");
    content.append(decimal_text(GENERATED_CONVERSATION_MAX_UTTERANCES).as_str());
    content.append(" utterances.\n\n");
    content.append(GENERATION_REQUIREMENTS);
    content.append("Initial situation:\n");
    content.append(request.initial_message.as_str());
    append_prior_facts(&mut content, &request.facts);
    content.append("\n\nParticipant information:\n");
    append_participants(&mut content, &request.participant_profiles);
    content.append("\nValid speaker ids for `speaker` fields:\n");
    append_ids(&mut content, &request.participant_profiles);
    content.append(GENERATION_EXAMPLE);
    content
}

/// The utterances with their texts trimmed, or the reason why the first of them that is
/// refused is: its speaker takes no part, or it neither says nor does anything.
pub open spec fn accepted_utterances(
    utterances: Seq<Utterance>,
    participants: Seq<Seq<char>>,
) -> Result<Seq<Utterance>, Seq<char>>
    decreases utterances.len(),
{
    if utterances.len() == 0 {
        Ok(seq![])
    } else {
        match accepted_utterances(utterances.drop_last(), participants) {
            Ok(before) => {
                let next = utterances.last();
                if !participants.contains(next.speaker) {
                    Err("unknown speaker id `"@ + next.speaker + "`"@)
                } else if trimmed(next.text).len() == 0 && next.tool_calls.len() == 0 {
                    Err("blank utterance from speaker `"@ + next.speaker + "`"@)
                } else {
                    Ok(before.push(Utterance { text: trimmed(next.text), ..next }))
                }
            },
            Err(reason) => Err(reason),
        }
    }
}

/// The utterances of a reply, given how it was read, or the reason why it is refused.
pub open spec fn planned(
    read: Result<Seq<Utterance>, Seq<char>>,
    participants: Seq<Seq<char>>,
    max_utterances: nat,
) -> Result<Seq<Utterance>, Seq<char>> {
    match read {
        Ok(utterances) => if utterances.len() > max_utterances {
            Err("conversation exceeded max utterance count of "@ + decimal(max_utterances))
        } else {
            accepted_utterances(utterances, participants)
        },
        Err(reason) => Err("invalid conversation JSON: "@ + reason),
    }
}

proof fn lemma_refused_utterances(
    utterances: Seq<Utterance>,
    participants: Seq<Seq<char>>,
    n: int,
)
    requires
        0 <= n <= utterances.len(),
        accepted_utterances(utterances.take(n), participants) is Err,
    ensures
        accepted_utterances(utterances, participants) == accepted_utterances(
            utterances.take(n),
            participants,
        ),
    decreases utterances.len() - n,
{
    if n < utterances.len() {
        assert(utterances.take(n + 1).drop_last() =~= utterances.take(n));
        lemma_refused_utterances(utterances, participants, n + 1);
    } else {
        assert(utterances.take(n) =~= utterances);
    }
}

/// Checks the utterances of a reply, given how it was read.
pub fn plan_utterances(
    read: Result<Vec<PlannedUtterance>, String>,
    participants: &[String],
    max_utterances: usize,
) -> (r: Result<Vec<PlannedUtterance>, String>)
    ensures
        outcome(r) == planned(outcome(read), participants.deep_view(), max_utterances as nat),
{
    let utterances = match read {
        Ok(utterances) => utterances,
        Err(reason) => {
            let mut text = "invalid conversation JSON: ".to_string();
            text.append(reason.as_str());
            return Err(text);
        },
    };
    let ghost all = utterances.deep_view();
    let ghost allowed = participants.deep_view();
    assert(all.len() == utterances.len());
    if utterances.len() > max_utterances {
        let mut text = "conversation exceeded max utterance count of ".to_string();
        text.append(decimal_text(max_utterances).as_str());
        return Err(text);
    }
    let mut accepted: Vec<PlannedUtterance> = Vec::new();
    let mut i: usize = 0;
    assert(all.take(0) =~= seq![]);
    assert(accepted.deep_view() =~= seq![]);
    while i < utterances.len()
        invariant
            i <= utterances.len(),
            utterances.len() <= max_utterances,
            outcome(read) == Ok::<Seq<Utterance>, Seq<char>>(all),
            all == utterances.deep_view(),
            allowed == participants.deep_view(),
            accepted_utterances(all.take(i as int), allowed) == Ok::<Seq<Utterance>, Seq<char>>(
                accepted.deep_view(),
            ),
        decreases utterances.len() - i,
    {
        let utterance = &utterances[i];
        assert(all.take(i + 1).drop_last() =~= all.take(i as int));
        assert(all.take(i + 1).last() == utterance.deep_view());
        proof {
            if accepted_utterances(all.take(i + 1), allowed) is Err {
                lemma_refused_utterances(all, allowed, i + 1);
            }
        }
        if !contains_text(participants, utterance.speaker.as_str()) {
            let mut text = "unknown speaker id `".to_string();
            text.append(utterance.speaker.as_str());
            text.append("`");
            return Err(text);
        }
        let spoken = trim(utterance.text.as_str());
        assert(utterance.deep_view().tool_calls.len() == utterance.tool_calls.len());
        if spoken.unicode_len() == 0 && utterance.tool_calls.len() == 0 {
            let mut text = "blank utterance from speaker `".to_string();
            text.append(utterance.speaker.as_str());
            text.append("`");
            return Err(text);
        }
        let mut next = utterance.clone();
        next.text = spoken.to_string();
        let ghost before = accepted.deep_view();
        accepted.push(next);
        assert(accepted.deep_view() =~= before.push(next.deep_view()));
        i = i + 1;
    }
    assert(all.take(all.len() as int) =~= all);
    Ok(accepted)
}

/// Reads the utterances of a reply. A parser reads the reply, trimmed.
pub fn parse_generated_conversation_response<
    F: Fn(&str) -> Result<Vec<PlannedUtterance>, String>,
>(response: &str, participants: &[String], max_utterances: usize, parser: F) -> (r: Result<
    Vec<PlannedUtterance>,
    String,
>)
    requires
        forall|text: &str| call_requires(parser, (text,)),
    ensures
        exists|text: &str, read: Result<Vec<PlannedUtterance>, String>| #[trigger]
            call_ensures(parser, (text,), read) && text@ == trimmed(response@) && outcome(r)
                == planned(outcome(read), participants.deep_view(), max_utterances as nat),
{
    let text = trim(response);
    let read = parser(text);
    let ghost given = read;
    let r = plan_utterances(read, participants, max_utterances);
    assert(call_ensures(parser, (text,), given));
    r
}

/// A generated conversation that is accepted has no more utterances than the limit, each
/// by a participant, and each says something, trimmed, or does something.
pub proof fn law_accepted_utterances(
    read: Result<Seq<Utterance>, Seq<char>>,
    participants: Seq<Seq<char>>,
    max_utterances: nat,
)
    ensures
        planned(read, participants, max_utterances) matches Ok(accepted) ==> {
            &&& accepted.len() <= max_utterances
            &&& forall|i: int|
                0 <= i < accepted.len() ==> {
                    &&& participants.contains((#[trigger] accepted[i]).speaker)
                    &&& accepted[i].text.len() > 0 || accepted[i].tool_calls.len() > 0
                    &&& trimmed(accepted[i].text) == accepted[i].text
                }
        },
{
    if let Ok(utterances) = read {
        lemma_accepted(utterances, participants);
    }
}

/// An accepted conversation holds each utterance that was read, in its place: with its
/// own speaker, its own text, trimmed, and all of its own tool calls.
pub proof fn law_accepting_keeps_each_utterance(
    read: Result<Seq<Utterance>, Seq<char>>,
    participants: Seq<Seq<char>>,
    max_utterances: nat,
)
    ensures
        planned(read, participants, max_utterances) matches Ok(accepted) ==> {
            &&& read matches Ok(utterances)
            &&& accepted.len() == utterances.len()
            &&& forall|i: int|
                0 <= i < accepted.len() ==> {
                    &&& (#[trigger] accepted[i]).speaker == utterances[i].speaker
                    &&& accepted[i].text == trimmed(utterances[i].text)
                    &&& accepted[i].tool_calls == utterances[i].tool_calls
                }
        },
{
    if let Ok(utterances) = read {
        lemma_accepted(utterances, participants);
    }
}

/// Whether an utterance may stand in a conversation of the participants: one of them
/// speaks it, and it says something or does something.
pub open spec fn is_acceptable(utterance: Utterance, participants: Seq<Seq<char>>) -> bool {
    &&& participants.contains(utterance.speaker)
    &&& trimmed(utterance.text).len() > 0 || utterance.tool_calls.len() > 0
}

/// A conversation is accepted exactly when it could be read, is within the limit and
/// holds none but acceptable utterances.
pub proof fn law_acceptable_conversations_are_accepted(
    read: Result<Seq<Utterance>, Seq<char>>,
    participants: Seq<Seq<char>>,
    max_utterances: nat,
)
    ensures
        planned(read, participants, max_utterances) is Ok <==> {
            &&& read matches Ok(utterances)
            &&& utterances.len() <= max_utterances
            &&& forall|i: int|
                0 <= i < utterances.len() ==> is_acceptable(
                    #[trigger] utterances[i],
                    participants,
                )
        },
{
    if let Ok(utterances) = read {
        lemma_accepted(utterances, participants);
        lemma_acceptable(utterances, participants);
    }
}

/// A refusal names what is wrong: why the reply could not be read, the limit, or the
/// speaker of the first utterance that is not acceptable.
pub proof fn law_refusals_name_the_reason(
    read: Result<Seq<Utterance>, Seq<char>>,
    participants: Seq<Seq<char>>,
    max_utterances: nat,
)
    ensures
        planned(read, participants, max_utterances) matches Err(refusal) ==> match read {
            Err(reason) => has_suffix(refusal, reason),
            Ok(utterances) => if utterances.len() > max_utterances {
                has_suffix(refusal, decimal(max_utterances))
            } else {
                exists|i: int|
                    {
                        &&& 0 <= i < utterances.len()
                        &&& !is_acceptable(#[trigger] utterances[i], participants)
                        &&& forall|j: int|
                            0 <= j < i ==> is_acceptable(#[trigger] utterances[j], participants)
                        &&& has_suffix(refusal, utterances[i].speaker + "`"@)
                        &&& has_prefix(refusal, "unknown speaker"@) <==> !participants.contains(
                            utterances[i].speaker,
                        )
                    }
            },
        },
{
    let refusal = planned(read, participants, max_utterances);
    if refusal is Err {
        match read {
            Err(reason) => {
                let text = "invalid conversation JSON: "@ + reason;
                assert(text.skip(text.len() - reason.len()) =~= reason);
            },
            Ok(utterances) => {
                if utterances.len() > max_utterances {
                    let limit = decimal(max_utterances);
                    let text = "conversation exceeded max utterance count of "@ + limit;
                    assert(text.skip(text.len() - limit.len()) =~= limit);
                } else {
                    lemma_refused(utterances, participants);
                }
            },
        }
    }
}

proof fn lemma_refused(utterances: Seq<Utterance>, participants: Seq<Seq<char>>)
    ensures
        accepted_utterances(utterances, participants) matches Err(refusal) ==> exists|i: int|
            {
                &&& 0 <= i < utterances.len()
                &&& !is_acceptable(#[trigger] utterances[i], participants)
                &&& forall|j: int|
                    0 <= j < i ==> is_acceptable(#[trigger] utterances[j], participants)
                &&& has_suffix(refusal, utterances[i].speaker + "`"@)
                &&& has_prefix(refusal, "unknown speaker"@) <==> !participants.contains(
                    utterances[i].speaker,
                )
            },
    decreases utterances.len(),
{
    if utterances.len() > 0 {
        let before = utterances.drop_last();
        lemma_refused(before, participants);
        let refusal = accepted_utterances(utterances, participants);
        if refusal is Err {
            let reason = refusal->Err_0;
            if accepted_utterances(before, participants) is Err {
                let i = choose|i: int|
                    {
                        &&& 0 <= i < before.len()
                        &&& !is_acceptable(#[trigger] before[i], participants)
                        &&& forall|j: int|
                            0 <= j < i ==> is_acceptable(#[trigger] before[j], participants)
                        &&& has_suffix(reason, before[i].speaker + "`"@)
                        &&& has_prefix(reason, "unknown speaker"@) <==> !participants.contains(
                            before[i].speaker,
                        )
                    };
                assert(utterances[i] == before[i]);
                assert forall|j: int| 0 <= j < i implies is_acceptable(
                    #[trigger] utterances[j],
                    participants,
                ) by {
                    assert(utterances[j] == before[j]);
                }
            } else {
                let i = utterances.len() - 1;
                lemma_accepted(before, participants);
                lemma_acceptable(before, participants);
                assert forall|j: int| 0 <= j < i implies is_acceptable(
                    #[trigger] utterances[j],
                    participants,
                ) by {
                    assert(utterances[j] == before[j]);
                }
                let tail = utterances[i].speaker + "`"@;
                reveal_strlit("unknown speaker");
                reveal_strlit("unknown speaker id `");
                reveal_strlit("blank utterance from speaker `");
                assert(reason.skip(reason.len() - tail.len()) =~= tail);
                if participants.contains(utterances[i].speaker) {
                    assert(reason[0] == 'b');
                    assert(reason.take("unknown speaker"@.len() as int)[0] == 'b');
                } else {
                    assert(reason.take("unknown speaker"@.len() as int) =~= "unknown speaker"@);
                }
                assert(!is_acceptable(utterances[i], participants));
            }
        }
    }
}

proof fn lemma_acceptable(utterances: Seq<Utterance>, participants: Seq<Seq<char>>)
    ensures
        accepted_utterances(utterances, participants) is Ok <==> forall|i: int|
            0 <= i < utterances.len() ==> is_acceptable(#[trigger] utterances[i], participants),
    decreases utterances.len(),
{
    if utterances.len() > 0 {
        let before = utterances.drop_last();
        lemma_acceptable(before, participants);
        if accepted_utterances(utterances, participants) is Ok {
            assert forall|i: int| 0 <= i < utterances.len() implies is_acceptable(
                #[trigger] utterances[i],
                participants,
            ) by {
                if i < before.len() {
                    assert(before[i] == utterances[i]);
                }
            }
        }
        if forall|i: int|
            0 <= i < utterances.len() ==> is_acceptable(#[trigger] utterances[i], participants) {
            assert forall|i: int| 0 <= i < before.len() implies is_acceptable(
                #[trigger] before[i],
                participants,
            ) by {
                assert(before[i] == utterances[i]);
            }
            assert(is_acceptable(utterances[utterances.len() - 1], participants));
        }
    }
}

proof fn lemma_accepted(utterances: Seq<Utterance>, participants: Seq<Seq<char>>)
    ensures
        accepted_utterances(utterances, participants) matches Ok(accepted) ==> {
            &&& accepted.len() == utterances.len()
            &&& forall|i: int|
                0 <= i < accepted.len() ==> {
                    &&& participants.contains((#[trigger] accepted[i]).speaker)
                    &&& accepted[i].text.len() > 0 || accepted[i].tool_calls.len() > 0
                    &&& trimmed(accepted[i].text) == accepted[i].text
                    &&& accepted[i].speaker == utterances[i].speaker
                    &&& accepted[i].text == trimmed(utterances[i].text)
                    &&& accepted[i].tool_calls == utterances[i].tool_calls
                }
        },
    decreases utterances.len(),
{
    if utterances.len() > 0 {
        lemma_accepted(utterances.drop_last(), participants);
        law_trim_is_idempotent(utterances.last().text);
    }
}

} // verus!
