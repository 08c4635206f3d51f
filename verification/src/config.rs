//! Runtime profiles, what they are routed to, and the errors of a runtime.

use crate::importance::ONE;
use crate::model::{resolved_mode, LlmModel, LlmToolCallingMode};
use crate::text::{
    comes_before, law_trim_is_idempotent, lemma_text_before_total, lemma_text_before_transitive,
    same_text, text_before, trim, trimmed,
};
use crate::types::outcome;
use vstd::prelude::*;

verus! {

/// A double-precision number, held by its bit pattern.
#[derive(Debug, Clone, Copy, PartialEq, Eq, Structural)]
pub struct Double {
    pub bits: u64,
}

/// A single-precision number, held by its bit pattern.
#[derive(Debug, Clone, Copy, PartialEq, Eq, Structural)]
pub struct Single {
    pub bits: u32,
}

/// Runtime options for a named local LLM profile.
#[derive(Debug, PartialEq, Eq)]
pub struct LlmRuntimeProfileConfig {
    pub id: String,
    pub model: LlmModel,
    pub cache_dir: Option<String>,
    pub use_gpu: bool,
    pub tool_calling: LlmToolCallingMode,
    pub worker_count: usize,
    pub seed: u64,
    pub temperature: Option<Double>,
    pub top_p: Option<Double>,
    pub repeat_penalty: Single,
    pub repeat_last_n: usize,
    pub max_new_tokens: usize,
}

/// What a [`LlmRuntimeProfileConfig`] holds.
#[verifier::ext_equal]
pub struct Profile {
    pub id: Seq<char>,
    pub model: LlmModel,
    pub cache_dir: Option<Seq<char>>,
    pub use_gpu: bool,
    pub tool_calling: LlmToolCallingMode,
    pub worker_count: usize,
    pub seed: u64,
    pub temperature: Option<Double>,
    pub top_p: Option<Double>,
    pub repeat_penalty: Single,
    pub repeat_last_n: usize,
    pub max_new_tokens: usize,
}

impl DeepView for LlmRuntimeProfileConfig {
    type V = Profile;

    open spec fn deep_view(&self) -> Profile {
        Profile {
            id: self.id@,
            model: self.model,
            cache_dir: self.cache_dir.deep_view(),
            use_gpu: self.use_gpu,
            tool_calling: self.tool_calling,
            worker_count: self.worker_count,
            seed: self.seed,
            temperature: self.temperature,
            top_p: self.top_p,
            repeat_penalty: self.repeat_penalty,
            repeat_last_n: self.repeat_last_n,
            max_new_tokens: self.max_new_tokens,
        }
    }
}

impl Clone for LlmRuntimeProfileConfig {
    fn clone(&self) -> (r: Self)
        ensures
            r.deep_view() == self.deep_view(),
    {
        LlmRuntimeProfileConfig {
            id: self.id.clone(),
            model: self.model,
            cache_dir: self.cache_dir.clone(),
            use_gpu: self.use_gpu,
            tool_calling: self.tool_calling,
            worker_count: self.worker_count,
            seed: self.seed,
            temperature: self.temperature,
            top_p: self.top_p,
            repeat_penalty: self.repeat_penalty,
            repeat_last_n: self.repeat_last_n,
            max_new_tokens: self.max_new_tokens,
        }
    }
}

/// The profile that is used unless another is given.
pub open spec fn default_profile() -> Profile {
    Profile {
        id: "default"@,
        model: LlmModel::SmolLM2_360MInstruct,
        cache_dir: None,
        use_gpu: false,
        tool_calling: LlmToolCallingMode::Auto,
        worker_count: 2,
        seed: 42,
        temperature: Some(Double { bits: 0x3fe6_6666_6666_6666 }),
        top_p: Some(Double { bits: 0x3fec_cccc_cccc_cccd }),
        repeat_penalty: Single { bits: 0x3f8c_cccd },
        repeat_last_n: 64,
        max_new_tokens: 128,
    }
}

impl Default for LlmRuntimeProfileConfig {
    /// A temperature of 0.7, a nucleus of 0.9 and a penalty of 1.1 for repetition.
    fn default() -> (r: Self)
        ensures
            r.deep_view() == default_profile(),
    {
        LlmRuntimeProfileConfig {
            id: "default".to_string(),
            model: LlmModel::SmolLM2_360MInstruct,
            cache_dir: None,
            use_gpu: false,
            tool_calling: LlmToolCallingMode::Auto,
            worker_count: 2,
            seed: 42,
            temperature: Some(Double { bits: 0x3fe6_6666_6666_6666 }),
            top_p: Some(Double { bits: 0x3fec_cccc_cccc_cccd }),
            repeat_penalty: Single { bits: 0x3f8c_cccd },
            repeat_last_n: 64,
            max_new_tokens: 128,
        }
    }
}

/// The profile that each kind of task is routed to.
#[derive(Debug, PartialEq, Eq)]
pub struct LlmTaskRoutingConfig {
    pub turn_generation_profile: String,
    pub fact_extraction_profile: String,
}

/// What a [`LlmTaskRoutingConfig`] holds.
#[verifier::ext_equal]
pub struct Routing {
    pub turn_generation_profile: Seq<char>,
    pub fact_extraction_profile: Seq<char>,
}

impl DeepView for LlmTaskRoutingConfig {
    type V = Routing;

    open spec fn deep_view(&self) -> Routing {
        Routing {
            turn_generation_profile: self.turn_generation_profile@,
            fact_extraction_profile: self.fact_extraction_profile@,
        }
    }
}

impl Clone for LlmTaskRoutingConfig {
    fn clone(&self) -> (r: Self)
        ensures
            r.deep_view() == self.deep_view(),
    {
        LlmTaskRoutingConfig {
            turn_generation_profile: self.turn_generation_profile.clone(),
            fact_extraction_profile: self.fact_extraction_profile.clone(),
        }
    }
}

impl Default for LlmTaskRoutingConfig {
    fn default() -> (r: Self)
        ensures
            r.deep_view() == (Routing {
                turn_generation_profile: "default"@,
                fact_extraction_profile: "default"@,
            }),
    {
        LlmTaskRoutingConfig {
            turn_generation_profile: "default".to_string(),
            fact_extraction_profile: "default".to_string(),
        }
    }
}

/// Runtime options for the local LLM worker profiles.
#[derive(Debug, PartialEq, Eq)]
pub struct LlmRuntimeConfig {
    pub profiles: Vec<LlmRuntimeProfileConfig>,
    pub routing: LlmTaskRoutingConfig,
}

/// What a [`LlmRuntimeConfig`] holds.
#[verifier::ext_equal]
pub struct Config {
    pub profiles: Seq<Profile>,
    pub routing: Routing,
}

impl DeepView for LlmRuntimeConfig {
    type V = Config;

    open spec fn deep_view(&self) -> Config {
        Config {
            profiles: self.profiles.deep_view(),
            routing: self.routing.deep_view(),
        }
    }
}

impl Clone for LlmRuntimeConfig {
    fn clone(&self) -> (r: Self)
        ensures
            r.deep_view() == self.deep_view(),
    {
        let profiles = self.profiles.clone();
        assert(profiles.deep_view() =~= self.profiles.deep_view());
        LlmRuntimeConfig {
            profiles,
            routing: self.routing.clone(),
        }
    }
}

impl Default for LlmRuntimeConfig {
    fn default() -> (r: Self)
        ensures
            r.deep_view() == (Config {
                profiles: seq![default_profile()],
                routing: Routing {
                    turn_generation_profile: "default"@,
                    fact_extraction_profile: "default"@,
                },
            }),
    {
        let profile = LlmRuntimeProfileConfig::default();
        let mut profiles: Vec<LlmRuntimeProfileConfig> = Vec::new();
        profiles.push(profile);
        assert(profiles.deep_view() =~= seq![profile.deep_view()]);
        LlmRuntimeConfig { profiles, routing: LlmTaskRoutingConfig::default() }
    }
}

/// Runtime options that were found valid.
#[derive(Debug, PartialEq, Eq)]
pub struct ValidatedLlmRuntimeConfig {
    pub profiles: Vec<LlmRuntimeProfileConfig>,
    pub routing: LlmTaskRoutingConfig,
}

/// What a [`ValidatedLlmRuntimeConfig`] holds.
#[verifier::ext_equal]
pub struct ValidConfig {
    pub profiles: Seq<Profile>,
    pub routing: Routing,
}

impl DeepView for ValidatedLlmRuntimeConfig {
    type V = ValidConfig;

    open spec fn deep_view(&self) -> ValidConfig {
        ValidConfig {
            profiles: self.profiles.deep_view(),
            routing: self.routing.deep_view(),
        }
    }
}

impl Clone for ValidatedLlmRuntimeConfig {
    fn clone(&self) -> (r: Self)
        ensures
            r.deep_view() == self.deep_view(),
    {
        let profiles = self.profiles.clone();
        assert(profiles.deep_view() =~= self.profiles.deep_view());
        ValidatedLlmRuntimeConfig {
            profiles,
            routing: self.routing.clone(),
        }
    }
}

/// Errors produced by the runtime.
#[derive(Debug, PartialEq, Eq)]
pub enum LlmRuntimeError {
    /// A JSON text could not be read or written, for the given reason.
    Json(String),
    /// The model backend failed, for the given reason.
    Mistral(String),
    MissingWeights,
    UnsupportedModel(&'static str),
    MissingProfiles,
    InvalidProfileId,
    DuplicateProfileId(String),
    MissingRoutedProfile { route: &'static str, profile_id: String },
    MissingEosToken,
    InvalidTurn(String),
    Cancelled,
}

/// What a [`LlmRuntimeError`] holds.
pub enum RuntimeError {
    Json(Seq<char>),
    Mistral(Seq<char>),
    MissingWeights,
    UnsupportedModel(Seq<char>),
    MissingProfiles,
    InvalidProfileId,
    DuplicateProfileId(Seq<char>),
    MissingRoutedProfile { route: Seq<char>, profile_id: Seq<char> },
    MissingEosToken,
    InvalidTurn(Seq<char>),
    Cancelled,
}

impl DeepView for LlmRuntimeError {
    type V = RuntimeError;

    open spec fn deep_view(&self) -> RuntimeError {
        match self {
            LlmRuntimeError::Json(reason) => RuntimeError::Json(reason@),
            LlmRuntimeError::Mistral(reason) => RuntimeError::Mistral(reason@),
            LlmRuntimeError::MissingWeights => RuntimeError::MissingWeights,
            LlmRuntimeError::UnsupportedModel(model) => RuntimeError::UnsupportedModel(model@),
            LlmRuntimeError::MissingProfiles => RuntimeError::MissingProfiles,
            LlmRuntimeError::InvalidProfileId => RuntimeError::InvalidProfileId,
            LlmRuntimeError::DuplicateProfileId(id) => RuntimeError::DuplicateProfileId(id@),
            LlmRuntimeError::MissingRoutedProfile { route, profile_id } => {
                RuntimeError::MissingRoutedProfile { route: route@, profile_id: profile_id@ }
            },
            LlmRuntimeError::MissingEosToken => RuntimeError::MissingEosToken,
            LlmRuntimeError::InvalidTurn(reason) => RuntimeError::InvalidTurn(reason@),
            LlmRuntimeError::Cancelled => RuntimeError::Cancelled,
        }
    }
}

/// The message of an error.
pub open spec fn error_message(error: RuntimeError) -> Seq<char> {
    match error {
        RuntimeError::Json(reason) => "serde json error: "@ + reason,
        RuntimeError::Mistral(reason) => "mistral error: "@ + reason,
        RuntimeError::MissingWeights => {
            "model weights were not found in the repository cache"@
        },
        RuntimeError::UnsupportedModel(model) => "unsupported model configuration: "@ + model,
        RuntimeError::MissingProfiles => "runtime config must contain at least one profile"@,
        RuntimeError::InvalidProfileId => "runtime profile ids must be non-empty"@,
        RuntimeError::DuplicateProfileId(id) => "duplicate runtime profile id: "@ + id,
        RuntimeError::MissingRoutedProfile { route, profile_id } => {
            "routed profile `"@ + profile_id + "` for `"@ + route + "` was not configured"@
        },
        RuntimeError::MissingEosToken => {
            "the model config did not specify an end-of-sequence token"@
        },
        RuntimeError::InvalidTurn(reason) => "failed to parse llm turn: "@ + reason,
        RuntimeError::Cancelled => "generation cancelled"@,
    }
}

fn prefixed(prefix: &str, text: &str) -> (r: String)
    ensures
        r@ == prefix@ + text@,
{
    let mut r = prefix.to_string();
    r.append(text);
    r
}

impl LlmRuntimeError {
    /// The message of the error.
    pub fn message(&self) -> (r: String)
        ensures
            r@ == error_message(self.deep_view()),
    {
        match self {
            LlmRuntimeError::Json(reason) => prefixed("serde json error: ", reason.as_str()),
            LlmRuntimeError::Mistral(reason) => prefixed("mistral error: ", reason.as_str()),
            LlmRuntimeError::MissingWeights => {
                "model weights were not found in the repository cache".to_string()
            },
            LlmRuntimeError::UnsupportedModel(model) => prefixed(
                "unsupported model configuration: ",
                model,
            ),
            LlmRuntimeError::MissingProfiles => {
                "runtime config must contain at least one profile".to_string()
            },
            LlmRuntimeError::InvalidProfileId => {
                "runtime profile ids must be non-empty".to_string()
            },
            LlmRuntimeError::DuplicateProfileId(id) => prefixed(
                "duplicate runtime profile id: ",
                id.as_str(),
            ),
            LlmRuntimeError::MissingRoutedProfile { route, profile_id } => {
                let mut text = prefixed("routed profile `", profile_id.as_str());
                text.append("` for `");
                text.append(route);
                text.append("` was not configured");
                text
            },
            LlmRuntimeError::MissingEosToken => {
                "the model config did not specify an end-of-sequence token".to_string()
            },
            LlmRuntimeError::InvalidTurn(reason) => prefixed(
                "failed to parse llm turn: ",
                reason.as_str(),
            ),
            LlmRuntimeError::Cancelled => "generation cancelled".to_string(),
        }
    }
}

/// A profile with its id trimmed and at least one worker.
pub open spec fn normalized(profile: Profile) -> Profile {
    Profile {
        id: trimmed(profile.id),
        worker_count: if profile.worker_count == 0 {
            1
        } else {
            profile.worker_count
        },
        ..profile
    }
}

/// Whether a profile has that id.
pub open spec fn has_profile(profiles: Seq<Profile>, id: Seq<char>) -> bool {
    exists|i: int| 0 <= i < profiles.len() && (#[trigger] profiles[i]).id == id
}

/// The profiles normalized, or the error of the first whose id is blank or taken.
pub open spec fn checked_profiles(profiles: Seq<Profile>) -> Result<Seq<Profile>, RuntimeError>
    decreases profiles.len(),
{
    if profiles.len() == 0 {
        Ok(seq![])
    } else {
        match checked_profiles(profiles.drop_last()) {
            Ok(before) => {
                let next = normalized(profiles.last());
                if next.id.len() == 0 {
                    Err(RuntimeError::InvalidProfileId)
                } else if has_profile(before, next.id) {
                    Err(RuntimeError::DuplicateProfileId(next.id))
                } else {
                    Ok(before.push(next))
                }
            },
            Err(error) => Err(error),
        }
    }
}

/// The options with their profiles normalized, or the first error that is found in them:
/// in the profiles, in that there are none, or in the routes.
pub open spec fn validated(config: Config) -> Result<ValidConfig, RuntimeError> {
    match checked_profiles(config.profiles) {
        Ok(profiles) => if profiles.len() == 0 {
            Err(RuntimeError::MissingProfiles)
        } else if !has_profile(profiles, config.routing.turn_generation_profile) {
            Err(
                RuntimeError::MissingRoutedProfile {
                    route: "turn_generation_profile"@,
                    profile_id: config.routing.turn_generation_profile,
                },
            )
        } else if !has_profile(profiles, config.routing.fact_extraction_profile) {
            Err(
                RuntimeError::MissingRoutedProfile {
                    route: "fact_extraction_profile"@,
                    profile_id: config.routing.fact_extraction_profile,
                },
            )
        } else {
            Ok(ValidConfig { profiles, routing: config.routing })
        },
        Err(error) => Err(error),
    }
}

fn find_profile(profiles: &Vec<LlmRuntimeProfileConfig>, id: &str) -> (found: Option<usize>)
    ensures
        found is Some <==> has_profile(profiles.deep_view(), id@),
        found matches Some(i) ==> {
            &&& i < profiles.len()
            &&& profiles.deep_view()[i as int].id == id@
        },
{
    let mut i: usize = 0;
    while i < profiles.len()
        invariant
            i <= profiles.len(),
            forall|k: int| 0 <= k < i ==> (#[trigger] profiles.deep_view()[k]).id != id@,
        decreases profiles.len() - i,
    {
        assert(profiles.deep_view()[i as int] == profiles@[i as int].deep_view());
        if same_text(profiles[i].id.as_str(), id) {
            return Some(i);
        }
        i = i + 1;
    }
    None
}

proof fn lemma_first_error_stays(profiles: Seq<Profile>, n: int)
    requires
        0 <= n <= profiles.len(),
        checked_profiles(profiles.take(n)) is Err,
    ensures
        checked_profiles(profiles) == checked_profiles(profiles.take(n)),
    decreases profiles.len() - n,
{
    if n < profiles.len() {
        assert(profiles.take(n + 1).drop_last() =~= profiles.take(n));
        lemma_first_error_stays(profiles, n + 1);
    } else {
        assert(profiles.take(n) =~= profiles);
    }
}

/// An index of profiles: each profile once, under its id, in the order of the ids.
pub open spec fn is_index(index: Seq<(Seq<char>, Profile)>, profiles: Seq<Profile>) -> bool {
    &&& index.len() == profiles.len()
    &&& forall|i: int, j: int|
        #![trigger index[i], index[j]]
        0 <= i < j < index.len() ==> text_before(index[i].0, index[j].0)
    &&& forall|i: int|
        0 <= i < index.len() ==> (#[trigger] index[i]).0 == index[i].1.id && profiles.contains(
            index[i].1,
        )
    &&& forall|k: int|
        0 <= k < profiles.len() ==> index.contains(((#[trigger] profiles[k]).id, profiles[k]))
}

impl LlmRuntimeConfig {
    /// Checks the options, and normalizes their profiles.
    pub fn validate(&self) -> (r: Result<ValidatedLlmRuntimeConfig, LlmRuntimeError>)
        ensures
            outcome(r) == validated(self.deep_view()),
    {
        let ghost all = self.profiles.deep_view();
        let mut profiles: Vec<LlmRuntimeProfileConfig> = Vec::new();
        let mut i: usize = 0;
        assert(all.take(0) =~= seq![]);
        assert(profiles.deep_view() =~= seq![]);
        while i < self.profiles.len()
            invariant
                i <= self.profiles.len(),
                all == self.deep_view().profiles,
                all == self.profiles.deep_view(),
                checked_profiles(all.take(i as int)) == Ok::<Seq<Profile>, RuntimeError>(
                    profiles.deep_view(),
                ),
            decreases self.profiles.len() - i,
        {
            assert(all.take(i + 1).drop_last() =~= all.take(i as int));
            assert(all.take(i + 1).last() == self.profiles@[i as int].deep_view());
            proof {
                if checked_profiles(all.take(i + 1)) is Err {
                    lemma_first_error_stays(all, i + 1);
                }
            }
            let id = trim(self.profiles[i].id.as_str());
            if id.unicode_len() == 0 {
                return Err(LlmRuntimeError::InvalidProfileId);
            }
            if find_profile(&profiles, id).is_some() {
                return Err(LlmRuntimeError::DuplicateProfileId(id.to_string()));
            }
            let mut profile = self.profiles[i].clone();
            profile.id = id.to_string();
            if profile.worker_count == 0 {
                profile.worker_count = 1;
            }
            let ghost before = profiles.deep_view();
            profiles.push(profile);
            assert(profiles.deep_view() =~= before.push(profile.deep_view()));
            i = i + 1;
        }
        assert(all.take(all.len() as int) =~= all);
        assert(profiles.deep_view().len() == profiles.len());
        if profiles.len() == 0 {
            return Err(LlmRuntimeError::MissingProfiles);
        }
        if find_profile(&profiles, self.routing.turn_generation_profile.as_str()).is_none() {
            return Err(
                LlmRuntimeError::MissingRoutedProfile {
                    route: "turn_generation_profile",
                    profile_id: self.routing.turn_generation_profile.clone(),
                },
            );
        }
        if find_profile(&profiles, self.routing.fact_extraction_profile.as_str()).is_none() {
            return Err(
                LlmRuntimeError::MissingRoutedProfile {
                    route: "fact_extraction_profile",
                    profile_id: self.routing.fact_extraction_profile.clone(),
                },
            );
        }
        Ok(ValidatedLlmRuntimeConfig { profiles, routing: self.routing.clone() })
    }

    /// The profiles by their ids, in the order of the ids.
    pub fn profiles_by_id(&self) -> (r: Result<
        Vec<(String, LlmRuntimeProfileConfig)>,
        LlmRuntimeError,
    >)
        ensures
            match r {
                Ok(index) => match validated(self.deep_view()) {
                    Ok(valid) => is_index(index.deep_view(), valid.profiles),
                    Err(_) => false,
                },
                Err(error) => validated(self.deep_view()) == Err::<ValidConfig, RuntimeError>(
                    error.deep_view(),
                ),
            },
    {
        let valid = match self.validate() {
            Ok(valid) => valid,
            Err(error) => {
                return Err(error);
            },
        };
        let ghost profiles = valid.profiles.deep_view();
        proof {
            lemma_checked_profiles(self.deep_view().profiles);
        }
        let mut index: Vec<(String, LlmRuntimeProfileConfig)> = Vec::new();
        let mut i: usize = 0;
        assert(profiles.take(0) =~= seq![]);
        assert(index.deep_view() =~= seq![]);
        while i < valid.profiles.len()
            invariant
                i <= valid.profiles.len(),
                profiles == valid.profiles.deep_view(),
                distinct_ids(profiles),
                is_index(index.deep_view(), profiles.take(i as int)),
            decreases valid.profiles.len() - i,
        {
            let profile = valid.profiles[i].clone();
            assert(profile.deep_view() == profiles[i as int]);
            let ghost before = index.deep_view();
            let mut j: usize = 0;
            while j < index.len() && comes_before(index[j].0.as_str(), profile.id.as_str())
                invariant
                    j <= index.len(),
                    before == index.deep_view(),
                    profile.deep_view() == profiles[i as int],
                    forall|k: int| 0 <= k < j ==> text_before((#[trigger] before[k]).0, profile.id@),
                decreases index.len() - j,
            {
                assert(before[j as int] == (index@[j as int].0@, index@[j as int].1.deep_view()));
                j = j + 1;
            }
            proof {
                if j < index.len() {
                    assert(before[j as int] == (
                        index@[j as int].0@,
                        index@[j as int].1.deep_view(),
                    ));
                }
                lemma_index_insert(before, profiles.take(i as int), profile.deep_view(), j as int);
                assert(profiles.take(i as int).push(profile.deep_view()) =~= profiles.take(i + 1));
            }
            let entry = (profile.id.clone(), profile);
            index.insert(j, entry);
            assert(index.deep_view() =~= before.insert(j as int, entry.deep_view()));
            i = i + 1;
        }
        assert(profiles.take(profiles.len() as int) =~= profiles);
        Ok(index)
    }
}

/// Whether no two profiles have the same id.
pub open spec fn distinct_ids(profiles: Seq<Profile>) -> bool {
    forall|i: int, j: int|
        #![trigger profiles[i], profiles[j]]
        0 <= i < j < profiles.len() ==> profiles[i].id != profiles[j].id
}

proof fn lemma_index_insert(
    index: Seq<(Seq<char>, Profile)>,
    profiles: Seq<Profile>,
    profile: Profile,
    j: int,
)
    requires
        is_index(index, profiles),
        distinct_ids(profiles.push(profile)),
        0 <= j <= index.len(),
        forall|k: int| 0 <= k < j ==> text_before((#[trigger] index[k]).0, profile.id),
        j < index.len() ==> !text_before(index[j].0, profile.id),
    ensures
        is_index(index.insert(j, (profile.id, profile)), profiles.push(profile)),
{
    let entry = (profile.id, profile);
    let after = index.insert(j, entry);
    let more = profiles.push(profile);
    assert forall|k: int| j <= k < index.len() implies text_before(
        profile.id,
        (#[trigger] index[k]).0,
    ) by {
        let q = choose|q: int| 0 <= q < profiles.len() && profiles[q] == index[j].1;
        assert(more[q] == profiles[q]);
        assert(more[profiles.len() as int] == profile);
        assert(index[j].0 != profile.id);
        lemma_text_before_total(index[j].0, profile.id);
        if k > j {
            lemma_text_before_transitive(profile.id, index[j].0, index[k].0);
        }
    }
    assert forall|a: int, b: int|
        #![trigger after[a], after[b]]
        0 <= a < b < after.len() implies text_before(after[a].0, after[b].0) by {
        if b < j {
            assert(text_before(index[a].0, index[b].0));
        } else if b == j {
            assert(text_before(index[a].0, profile.id));
        } else if a < j {
            assert(text_before(index[a].0, index[b - 1].0));
        } else if a == j {
            assert(text_before(profile.id, index[b - 1].0));
        } else {
            assert(text_before(index[a - 1].0, index[b - 1].0));
        }
    }
    assert forall|i: int| 0 <= i < after.len() implies (#[trigger] after[i]).0 == after[i].1.id
        && more.contains(after[i].1) by {
        if i == j {
            assert(more[profiles.len() as int] == profile);
        } else {
            let from = if i < j {
                i
            } else {
                i - 1
            };
            assert(after[i] == index[from]);
            let q = choose|q: int| 0 <= q < profiles.len() && profiles[q] == index[from].1;
            assert(more[q] == after[i].1);
        }
    }
    assert forall|k: int| 0 <= k < more.len() implies after.contains(
        ((#[trigger] more[k]).id, more[k]),
    ) by {
        if k < profiles.len() {
            assert(index.contains((profiles[k].id, profiles[k])));
            let q = choose|q: int| 0 <= q < index.len() && index[q] == (profiles[k].id, profiles[k]);
            assert(after[if q < j {
                q
            } else {
                q + 1
            }] == index[q]);
        } else {
            assert(after[j] == entry);
        }
    }
}

proof fn lemma_checked_profiles(profiles: Seq<Profile>)
    ensures
        checked_profiles(profiles) matches Ok(done) ==> {
            &&& done.len() == profiles.len()
            &&& distinct_ids(done)
            &&& forall|i: int|
                0 <= i < done.len() ==> #[trigger] done[i] == normalized(profiles[i]) && done[i].id.len()
                    > 0
        },
    decreases profiles.len(),
{
    if profiles.len() > 0 {
        let shorter = profiles.drop_last();
        lemma_checked_profiles(shorter);
        if let Ok(done) = checked_profiles(profiles) {
            let before = checked_profiles(shorter)->Ok_0;
            assert forall|i: int, j: int|
                #![trigger done[i], done[j]]
                0 <= i < j < done.len() implies done[i].id != done[j].id by {
                assert(done[i] == before[i]);
                if j < before.len() {
                    assert(done[j] == before[j]);
                }
            }
            assert forall|i: int| 0 <= i < done.len() implies #[trigger] done[i] == normalized(
                profiles[i],
            ) && done[i].id.len() > 0 by {
                if i < before.len() {
                    assert(done[i] == before[i]);
                    assert(shorter[i] == profiles[i]);
                }
            }
        }
    }
}

/// Valid options have profiles with ids that are trimmed, not blank and not taken twice,
/// each with at least one worker, and routes that lead to profiles.
pub proof fn law_valid_options(config: Config)
    ensures
        validated(config) matches Ok(valid) ==> {
            &&& valid.profiles.len() == config.profiles.len() > 0
            &&& valid.routing == config.routing
            &&& distinct_ids(valid.profiles)
            &&& has_profile(valid.profiles, valid.routing.turn_generation_profile)
            &&& has_profile(valid.profiles, valid.routing.fact_extraction_profile)
            &&& forall|i: int|
                0 <= i < valid.profiles.len() ==> {
                    &&& #[trigger] valid.profiles[i] == normalized(config.profiles[i])
                    &&& valid.profiles[i].id.len() > 0
                    &&& trimmed(valid.profiles[i].id) == valid.profiles[i].id
                    &&& valid.profiles[i].worker_count >= 1
                }
        },
{
    lemma_checked_profiles(config.profiles);
    if let Ok(valid) = validated(config) {
        assert forall|i: int| 0 <= i < valid.profiles.len() implies {
            &&& #[trigger] valid.profiles[i] == normalized(config.profiles[i])
            &&& valid.profiles[i].id.len() > 0
            &&& trimmed(valid.profiles[i].id) == valid.profiles[i].id
            &&& valid.profiles[i].worker_count >= 1
        } by {
            law_trim_is_idempotent(config.profiles[i].id);
        }
    }
}

proof fn lemma_valid_profiles_stay(profiles: Seq<Profile>)
    requires
        distinct_ids(profiles),
        forall|i: int|
            0 <= i < profiles.len() ==> #[trigger] normalized(profiles[i]) == profiles[i]
                && profiles[i].id.len() > 0,
    ensures
        checked_profiles(profiles) == Ok::<Seq<Profile>, RuntimeError>(profiles),
    decreases profiles.len(),
{
    if profiles.len() > 0 {
        let shorter = profiles.drop_last();
        let last = profiles.len() - 1;
        assert forall|i: int, j: int|
            #![trigger shorter[i], shorter[j]]
            0 <= i < j < shorter.len() implies shorter[i].id != shorter[j].id by {
            assert(profiles[i].id != profiles[j].id);
        }
        assert forall|i: int| 0 <= i < shorter.len() implies #[trigger] normalized(shorter[i])
            == shorter[i] && shorter[i].id.len() > 0 by {
            assert(normalized(profiles[i]) == profiles[i]);
        }
        lemma_valid_profiles_stay(shorter);
        assert(normalized(profiles[last]) == profiles[last]);
        if has_profile(shorter, profiles[last].id) {
            let i = choose|i: int|
                0 <= i < shorter.len() && (#[trigger] shorter[i]).id == profiles[last].id;
            assert(profiles[i].id != profiles[last].id);
        }
        assert(shorter.push(profiles.last()) =~= profiles);
    } else {
        assert(profiles =~= seq![]);
    }
}

/// Valid options are valid again, and are not changed.
pub proof fn law_validating_is_idempotent(config: Config)
    ensures
        validated(config) matches Ok(valid) ==> validated(
            Config { profiles: valid.profiles, routing: valid.routing },
        ) == Ok::<ValidConfig, RuntimeError>(valid),
{
    law_valid_options(config);
    if let Ok(valid) = validated(config) {
        assert forall|i: int| 0 <= i < valid.profiles.len() implies #[trigger] normalized(
            valid.profiles[i],
        ) == valid.profiles[i] && valid.profiles[i].id.len() > 0 by {
            law_trim_is_idempotent(config.profiles[i].id);
            assert(valid.profiles[i] == normalized(config.profiles[i]));
        }
        lemma_valid_profiles_stay(valid.profiles);
    }
}

/// The format in which the profile with an id calls tools, if there is one.
pub open spec fn mode_of_profile(profiles: Seq<Profile>, id: Seq<char>) -> Option<
    LlmToolCallingMode,
>
    decreases profiles.len(),
{
    if profiles.len() == 0 {
        None
    } else if profiles[0].id == id {
        Some(resolved_mode(profiles[0].tool_calling, profiles[0].model))
    } else {
        mode_of_profile(profiles.drop_first(), id)
    }
}

impl ValidatedLlmRuntimeConfig {
    /// The format in which the profile that generates turns calls tools.
    pub fn turn_generation_tool_calling(&self) -> (r: Result<LlmToolCallingMode, LlmRuntimeError>)
        ensures
            match r {
                Ok(mode) => mode_of_profile(
                    self.deep_view().profiles,
                    self.deep_view().routing.turn_generation_profile,
                ) == Some(mode),
                Err(error) => mode_of_profile(
                    self.deep_view().profiles,
                    self.deep_view().routing.turn_generation_profile,
                ) is None && error.deep_view() == (RuntimeError::MissingRoutedProfile {
                    route: "turn_generation_profile"@,
                    profile_id: self.deep_view().routing.turn_generation_profile,
                }),
            },
    {
        let ghost all = self.deep_view().profiles;
        let ghost id = self.deep_view().routing.turn_generation_profile;
        let mut i: usize = 0;
        assert(all.skip(0) =~= all);
        while i < self.profiles.len()
            invariant
                i <= self.profiles.len(),
                all == self.profiles.deep_view(),
                all == self.deep_view().profiles,
                id == self.deep_view().routing.turn_generation_profile,
                mode_of_profile(all, id) == mode_of_profile(all.skip(i as int), id),
            decreases self.profiles.len() - i,
        {
            let profile = &self.profiles[i];
            assert(all.skip(i as int)[0] == profile.deep_view());
            if same_text(profile.id.as_str(), self.routing.turn_generation_profile.as_str()) {
                return Ok(profile.tool_calling.resolve_for_model(profile.model));
            }
            assert(all.skip(i as int).drop_first() =~= all.skip(i + 1));
            i = i + 1;
        }
        Err(
            LlmRuntimeError::MissingRoutedProfile {
                route: "turn_generation_profile",
                profile_id: self.routing.turn_generation_profile.clone(),
            },
        )
    }
}

proof fn lemma_profile_has_mode(profiles: Seq<Profile>, id: Seq<char>)
    requires
        has_profile(profiles, id),
    ensures
        mode_of_profile(profiles, id) is Some,
    decreases profiles.len(),
{
    let i = choose|i: int| 0 <= i < profiles.len() && (#[trigger] profiles[i]).id == id;
    if i > 0 {
        let rest = profiles.drop_first();
        assert(rest[i - 1].id == id);
        lemma_profile_has_mode(rest, id);
    }
}

/// With valid options the format in which turns call tools is always known.
pub proof fn law_valid_options_have_a_tool_calling_mode(config: Config)
    ensures
        validated(config) matches Ok(valid) ==> mode_of_profile(
            valid.profiles,
            valid.routing.turn_generation_profile,
        ) is Some,
{
    if let Ok(valid) = validated(config) {
        lemma_profile_has_mode(valid.profiles, valid.routing.turn_generation_profile);
    }
}

/// How a model is sampled.
#[derive(Debug, Clone, Copy, PartialEq, Eq, Structural)]
pub struct SamplingPlan {
    /// Whether the likeliest token is always taken.
    pub deterministic: bool,
    pub max_len: usize,
    pub temperature: Option<Double>,
    pub top_p: Option<Double>,
    pub repetition_penalty: Option<Single>,
}

impl LlmRuntimeProfileConfig {
    /// How the model of the profile is sampled: without a temperature and a nucleus the
    /// likeliest token is taken, and a penalty of one is none.
    pub fn sampling_plan(&self) -> (r: SamplingPlan)
        ensures
            r.deterministic == (self.temperature is None && self.top_p is None),
            r.max_len == self.max_new_tokens,
            r.temperature == self.temperature,
            r.top_p == self.top_p,
            r.repetition_penalty == if self.repeat_penalty.bits == ONE {
                None
            } else {
                Some(self.repeat_penalty)
            },
    {
        SamplingPlan {
            deterministic: self.temperature.is_none() && self.top_p.is_none(),
            max_len: self.max_new_tokens,
            temperature: self.temperature,
            top_p: self.top_p,
            repetition_penalty: if self.repeat_penalty.bits != ONE {
                Some(self.repeat_penalty)
            } else {
                None
            },
        }
    }
}

} // verus!
