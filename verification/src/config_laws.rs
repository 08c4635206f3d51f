//! What the checked options of the runtime keep of what was given.

use crate::config::{
    checked_profiles, error_message, has_profile, is_index, mode_of_profile, normalized, validated,
    Config, Profile, RuntimeError,
};
use crate::model::{gguf_file, mode_name, repository, LlmModel, LlmToolCallingMode};
use crate::text::{has_suffix, lemma_text_before_irreflexive, occurs, text_before, trimmed};
use crate::text_laws::{law_ends_of_sums, law_parts_stand_in_sums};
use vstd::prelude::*;

verus! {

/// Checking a profile trims its id and gives it a worker where it has none; everything else
/// in it stays as it was given.
pub proof fn law_profiles_keep_their_options(profile: Profile)
    ensures
        ({
            let checked = normalized(profile);
            &&& checked.id == trimmed(profile.id)
            &&& profile.worker_count > 0 ==> checked.worker_count == profile.worker_count
            &&& profile.worker_count == 0 ==> checked.worker_count == 1
            &&& checked.model == profile.model
            &&& checked.cache_dir == profile.cache_dir
            &&& checked.use_gpu == profile.use_gpu
            &&& checked.tool_calling == profile.tool_calling
            &&& checked.seed == profile.seed
            &&& checked.temperature == profile.temperature
            &&& checked.top_p == profile.top_p
            &&& checked.repeat_penalty == profile.repeat_penalty
            &&& checked.repeat_last_n == profile.repeat_last_n
            &&& checked.max_new_tokens == profile.max_new_tokens
        }),
{
}

/// Whether a route leads to a profile: one whose id, trimmed, is the route's.
pub open spec fn leads_somewhere(profiles: Seq<Profile>, route: Seq<char>) -> bool {
    exists|i: int| 0 <= i < profiles.len() && trimmed((#[trigger] profiles[i]).id) == route
}

/// Whether each profile has an id that is not blank and that no other has, white space
/// around it aside.
pub open spec fn are_named(profiles: Seq<Profile>) -> bool {
    &&& forall|i: int| 0 <= i < profiles.len() ==> trimmed((#[trigger] profiles[i]).id).len() > 0
    &&& forall|i: int, j: int|
        #![trigger profiles[i], profiles[j]]
        0 <= i < j < profiles.len() ==> trimmed(profiles[i].id) != trimmed(profiles[j].id)
}

/// Whether a profile has a blank id.
pub open spec fn has_blank(profiles: Seq<Profile>) -> bool {
    exists|i: int| 0 <= i < profiles.len() && trimmed((#[trigger] profiles[i]).id).len() == 0
}

/// Whether two profiles have that id, white space around theirs aside.
pub open spec fn is_taken_twice(profiles: Seq<Profile>, id: Seq<char>) -> bool {
    exists|i: int, j: int|
        #![trigger profiles[i], profiles[j]]
        0 <= i < j < profiles.len() && trimmed(profiles[i].id) == id && trimmed(profiles[j].id)
            == id
}

proof fn lemma_checked(profiles: Seq<Profile>)
    ensures
        checked_profiles(profiles) is Ok <==> are_named(profiles),
        checked_profiles(profiles) matches Ok(done) ==> done.len() == profiles.len() && forall|
            i: int,
        |
            0 <= i < done.len() ==> #[trigger] done[i] == normalized(profiles[i]),
        checked_profiles(profiles) matches Err(error) ==> match error {
            RuntimeError::InvalidProfileId => has_blank(profiles),
            RuntimeError::DuplicateProfileId(id) => is_taken_twice(profiles, id),
            _ => false,
        },
    decreases profiles.len(),
{
    if profiles.len() > 0 {
        let before = profiles.drop_last();
        lemma_checked(before);
        let last = profiles.last();
        let n = profiles.len() - 1;
        if are_named(profiles) {
            assert forall|i: int| 0 <= i < before.len() implies trimmed(
                (#[trigger] before[i]).id,
            ).len() > 0 by {
                assert(before[i] == profiles[i]);
            }
            assert forall|i: int, j: int|
                #![trigger before[i], before[j]]
                0 <= i < j < before.len() implies trimmed(before[i].id) != trimmed(
                before[j].id,
            ) by {
                assert(before[i] == profiles[i] && before[j] == profiles[j]);
            }
            assert(are_named(before));
            let done = checked_profiles(before)->Ok_0;
            assert(!has_profile(done, trimmed(last.id))) by {
                if has_profile(done, trimmed(last.id)) {
                    let i = choose|i: int|
                        0 <= i < done.len() && (#[trigger] done[i]).id == trimmed(last.id);
                    assert(done[i] == normalized(before[i]));
                    assert(before[i] == profiles[i]);
                    assert(trimmed(profiles[i].id) != trimmed(profiles[n].id));
                }
            }
            assert(trimmed(profiles[n].id).len() > 0);
        }
        if let Err(error) = checked_profiles(profiles) {
            if let Err(earlier) = checked_profiles(before) {
                if has_blank(before) {
                    let i = choose|i: int|
                        0 <= i < before.len() && trimmed((#[trigger] before[i]).id).len() == 0;
                    assert(profiles[i] == before[i]);
                }
                if let RuntimeError::DuplicateProfileId(id) = earlier {
                    let (i, j) = choose|i: int, j: int|
                        #![trigger before[i], before[j]]
                        0 <= i < j < before.len() && trimmed(before[i].id) == id && trimmed(
                            before[j].id,
                        ) == id;
                    assert(profiles[i] == before[i] && profiles[j] == before[j]);
                }
            } else {
                let done = checked_profiles(before)->Ok_0;
                if trimmed(last.id).len() == 0 {
                    assert(trimmed(profiles[n].id).len() == 0);
                } else {
                    let i = choose|i: int|
                        0 <= i < done.len() && (#[trigger] done[i]).id == trimmed(last.id);
                    assert(done[i] == normalized(before[i]));
                    assert(trimmed(profiles[i].id) == trimmed(profiles[n].id));
                }
            }
        }
        if let Ok(all) = checked_profiles(profiles) {
            let done = checked_profiles(before)->Ok_0;
            assert forall|i: int| 0 <= i < all.len() implies #[trigger] all[i] == normalized(
                profiles[i],
            ) by {
                if i < done.len() {
                    assert(all[i] == done[i]);
                    assert(before[i] == profiles[i]);
                }
            }
            assert forall|i: int| 0 <= i < profiles.len() implies trimmed(
                (#[trigger] profiles[i]).id,
            ).len() > 0 by {
                if i < n {
                    assert(before[i] == profiles[i]);
                }
            }
            assert forall|i: int, j: int|
                #![trigger profiles[i], profiles[j]]
                0 <= i < j < profiles.len() implies trimmed(profiles[i].id) != trimmed(
                profiles[j].id,
            ) by {
                assert(before[i] == profiles[i]);
                if j < n {
                    assert(before[j] == profiles[j]);
                } else {
                    assert(done[i] == normalized(before[i]));
                    assert(!has_profile(done, trimmed(last.id)));
                    assert(done[i].id != trimmed(last.id));
                }
            }
        }
    }
}

/// Options are valid exactly when there is a profile, each is named, and both routes lead
/// somewhere; what is wrong is told: that an id is blank, which one is taken twice, that
/// there are no profiles, or which route leads nowhere and where it was to lead.
pub proof fn law_options_are_refused_for_a_reason(config: Config)
    ensures
        validated(config) is Ok <==> {
            &&& config.profiles.len() > 0
            &&& are_named(config.profiles)
            &&& leads_somewhere(config.profiles, config.routing.turn_generation_profile)
            &&& leads_somewhere(config.profiles, config.routing.fact_extraction_profile)
        },
        validated(config) matches Err(error) ==> match error {
            RuntimeError::MissingProfiles => config.profiles.len() == 0,
            RuntimeError::InvalidProfileId => has_blank(config.profiles),
            RuntimeError::DuplicateProfileId(id) => is_taken_twice(config.profiles, id),
            RuntimeError::MissingRoutedProfile { route, profile_id } => {
                &&& !leads_somewhere(config.profiles, profile_id)
                &&& route == "turn_generation_profile"@ && profile_id
                    == config.routing.turn_generation_profile || route
                    == "fact_extraction_profile"@ && profile_id
                    == config.routing.fact_extraction_profile
            },
            _ => false,
        },
{
    lemma_checked(config.profiles);
    if let Ok(done) = checked_profiles(config.profiles) {
        lemma_leads(config.profiles, done, config.routing.turn_generation_profile);
        lemma_leads(config.profiles, done, config.routing.fact_extraction_profile);
    }
}

proof fn lemma_leads(profiles: Seq<Profile>, done: Seq<Profile>, route: Seq<char>)
    requires
        done.len() == profiles.len(),
        forall|i: int| 0 <= i < done.len() ==> #[trigger] done[i] == normalized(profiles[i]),
    ensures
        has_profile(done, route) <==> leads_somewhere(profiles, route),
{
    if has_profile(done, route) {
        let i = choose|i: int| 0 <= i < done.len() && (#[trigger] done[i]).id == route;
        assert(trimmed(profiles[i].id) == route);
    }
    if leads_somewhere(profiles, route) {
        let i = choose|i: int|
            0 <= i < profiles.len() && trimmed((#[trigger] profiles[i]).id) == route;
        assert(done[i].id == route);
    }
}

/// The format of the first profile with an id is the one of that profile: the one that it
/// sets, or the one that its own model is made for.
pub proof fn law_modes_are_those_of_the_profile(profiles: Seq<Profile>, i: int)
    requires
        0 <= i < profiles.len(),
        forall|j: int| 0 <= j < i ==> (#[trigger] profiles[j]).id != profiles[i].id,
    ensures
        mode_of_profile(profiles, profiles[i].id) == Some(
            if profiles[i].tool_calling != LlmToolCallingMode::Auto {
                profiles[i].tool_calling
            } else if profiles[i].model == LlmModel::SmolLM3_3BQ4KM {
                LlmToolCallingMode::AgenticXml
            } else {
                LlmToolCallingMode::Native
            },
        ),
    decreases profiles.len(),
{
    if i > 0 {
        let rest = profiles.drop_first();
        assert(profiles[0].id != profiles[i].id);
        assert(rest[i - 1] == profiles[i]);
        assert forall|j: int| 0 <= j < i - 1 implies (#[trigger] rest[j]).id != rest[i - 1].id by {
            assert(rest[j] == profiles[j + 1]);
        }
        law_modes_are_those_of_the_profile(rest, i - 1);
    }
}

/// The index of profiles finds each of them under its own id, and there is one order only.
pub proof fn law_an_index_is_the_only_one(
    index: Seq<(Seq<char>, Profile)>,
    other: Seq<(Seq<char>, Profile)>,
    profiles: Seq<Profile>,
    i: int,
)
    requires
        is_index(index, profiles),
        is_index(other, profiles),
        0 <= i < index.len(),
    ensures
        index[i] == other[i],
    decreases i,
{
    lemma_index_holds(index, other, profiles, i);
    lemma_index_holds(other, index, profiles, i);
    let j = choose|j: int| 0 <= j < other.len() && other[j] == index[i];
    let k = choose|k: int| 0 <= k < index.len() && index[k] == other[i];
    if j < i {
        law_an_index_is_the_only_one(index, other, profiles, j);
        assert(text_before(index[j].0, index[i].0));
        lemma_text_before_irreflexive(index[i].0);
        assert(false);
    }
    if k < i {
        law_an_index_is_the_only_one(index, other, profiles, k);
        assert(text_before(other[k].0, other[i].0));
        lemma_text_before_irreflexive(other[i].0);
        assert(false);
    }
    if j > i {
        assert(text_before(other[i].0, other[j].0));
        if k > i {
            assert(text_before(index[i].0, index[k].0));
            crate::text::lemma_text_before_transitive(index[i].0, index[k].0, other[j].0);
            lemma_text_before_irreflexive(index[i].0);
            assert(false);
        }
        assert(k == i);
    }
}

proof fn lemma_index_holds(
    index: Seq<(Seq<char>, Profile)>,
    other: Seq<(Seq<char>, Profile)>,
    profiles: Seq<Profile>,
    i: int,
)
    requires
        is_index(index, profiles),
        is_index(other, profiles),
        0 <= i < index.len(),
    ensures
        other.contains(index[i]),
{
    assert(index[i].0 == index[i].1.id && profiles.contains(index[i].1));
    let k = choose|k: int| 0 <= k < profiles.len() && profiles[k] == index[i].1;
    assert(other.contains((profiles[k].id, profiles[k])));
    assert(index[i] == (profiles[k].id, profiles[k]));
}

/// The message of an error tells what the error holds: the reason, the model, the id, or
/// the route and where it was to lead.
pub proof fn law_messages_tell_what_the_error_holds(error: RuntimeError)
    ensures
        match error {
            RuntimeError::Json(reason) => has_suffix(error_message(error), reason),
            RuntimeError::Mistral(reason) => has_suffix(error_message(error), reason),
            RuntimeError::UnsupportedModel(model) => has_suffix(error_message(error), model),
            RuntimeError::DuplicateProfileId(id) => has_suffix(error_message(error), id),
            RuntimeError::InvalidTurn(reason) => has_suffix(error_message(error), reason),
            RuntimeError::MissingRoutedProfile { route, profile_id } => occurs(
                error_message(error),
                route,
            ) && occurs(error_message(error), profile_id),
            _ => true,
        },
{
    law_ends_of_sums();
    law_parts_stand_in_sums();
}

/// No two models have the same weights: they differ in the repository or in the file, and
/// in the file where both have one.
pub proof fn law_models_have_their_own_weights(a: LlmModel, b: LlmModel)
    requires
        a != b,
    ensures
        repository(a) != repository(b) || gguf_file(a) != gguf_file(b),
        gguf_file(a) is Some && gguf_file(b) is Some ==> gguf_file(a) != gguf_file(b),
{
    reveal_strlit("HuggingFaceTB/SmolLM2-360M-Instruct");
    reveal_strlit("HuggingFaceTB/SmolLM2-1.7B-Instruct-GGUF");
    reveal_strlit("Qwen/Qwen2.5-1.5B-Instruct-GGUF");
    reveal_strlit("ggml-org/SmolLM3-3B-GGUF");
    reveal_strlit("smollm2-1.7b-instruct-q4_k_m.gguf");
    reveal_strlit("qwen2.5-1.5b-instruct-q2_k.gguf");
    reveal_strlit("qwen2.5-1.5b-instruct-q4_k_m.gguf");
    assert("smollm2-1.7b-instruct-q4_k_m.gguf"@[0] == 's');
    assert("qwen2.5-1.5b-instruct-q2_k.gguf"@[0] == 'q');
    assert("qwen2.5-1.5b-instruct-q4_k_m.gguf"@[0] == 'q');
    assert("qwen2.5-1.5b-instruct-q2_k.gguf"@.len() != "qwen2.5-1.5b-instruct-q4_k_m.gguf"@.len());
    assert("HuggingFaceTB/SmolLM2-360M-Instruct"@[0] == 'H');
    assert("ggml-org/SmolLM3-3B-GGUF"@[0] == 'g');
}

/// The formats of tool calling have names of their own.
pub proof fn law_modes_have_their_own_names(a: LlmToolCallingMode, b: LlmToolCallingMode)
    ensures
        mode_name(a) == mode_name(b) <==> a == b,
{
    reveal_strlit("disabled");
    reveal_strlit("auto");
    reveal_strlit("native");
    reveal_strlit("agentic XML");
    reveal_strlit("python");
    assert("disabled"@.len() == 8 && "auto"@.len() == 4 && "agentic XML"@.len() == 11);
    assert("native"@[0] == 'n' && "python"@[0] == 'p');
    assert("native"@.len() == 6 && "python"@.len() == 6);
}

} // verus!
