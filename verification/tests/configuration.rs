use bevellm::config::{
    LlmRuntimeConfig, LlmRuntimeError, LlmRuntimeProfileConfig, LlmTaskRoutingConfig, Single,
};
use bevellm::model::{LlmModel, LlmToolCallingMode, ModelSourceKind};

fn profile(id: &str) -> LlmRuntimeProfileConfig {
    LlmRuntimeProfileConfig { id: String::from(id), ..LlmRuntimeProfileConfig::default() }
}

fn routing(turn: &str, facts: &str) -> LlmTaskRoutingConfig {
    LlmTaskRoutingConfig {
        turn_generation_profile: String::from(turn),
        fact_extraction_profile: String::from(facts),
    }
}

#[test]
fn runtime_config_rejects_duplicate_profile_ids() {
    let result = LlmRuntimeConfig {
        profiles: vec![
            LlmRuntimeProfileConfig::default(),
            LlmRuntimeProfileConfig {
                id: String::from("default"),
                ..LlmRuntimeProfileConfig::default()
            },
        ],
        routing: LlmTaskRoutingConfig::default(),
    }
    .validate();

    assert!(matches!(
        result,
        Err(LlmRuntimeError::DuplicateProfileId(profile_id)) if profile_id == "default"
    ));
}

#[test]
fn runtime_config_rejects_missing_routed_profile_ids() {
    let result = LlmRuntimeConfig {
        profiles: vec![LlmRuntimeProfileConfig::default()],
        routing: LlmTaskRoutingConfig {
            turn_generation_profile: String::from("missing"),
            fact_extraction_profile: String::from("default"),
        },
    }
    .validate();

    assert!(matches!(
        result,
        Err(LlmRuntimeError::MissingRoutedProfile { route, profile_id })
            if route == "turn_generation_profile" && profile_id == "missing"
    ));
}

#[test]
fn runtime_config_coerces_zero_worker_count_to_one() {
    let validated = LlmRuntimeConfig {
        profiles: vec![LlmRuntimeProfileConfig {
            worker_count: 0,
            ..LlmRuntimeProfileConfig::default()
        }],
        routing: LlmTaskRoutingConfig::default(),
    }
    .validate()
    .expect("config should validate");

    assert_eq!(validated.profiles[0].worker_count, 1);
}

#[test]
fn tool_calling_mode_auto_resolves_by_model() {
    assert_eq!(
        LlmToolCallingMode::Auto.resolve_for_model(LlmModel::Qwen2_5_1_5BInstructQ4KM),
        LlmToolCallingMode::Native
    );
    assert_eq!(
        LlmToolCallingMode::Auto.resolve_for_model(LlmModel::SmolLM3_3BQ4KM),
        LlmToolCallingMode::AgenticXml
    );
}

#[test]
fn set_modes_resolve_to_themselves() {
    assert_eq!(
        LlmToolCallingMode::Disabled.resolve_for_model(LlmModel::SmolLM3_3BQ4KM),
        LlmToolCallingMode::Disabled
    );
    assert_eq!(
        LlmToolCallingMode::Python.resolve_for_model(LlmModel::SmolLM2_360MInstruct),
        LlmToolCallingMode::Python
    );
    assert_eq!(LlmToolCallingMode::default(), LlmToolCallingMode::Disabled);
}

#[test]
fn default_profile_holds_the_usual_numbers() {
    let profile = LlmRuntimeProfileConfig::default();
    assert_eq!(profile.temperature.unwrap().bits, 0.7f64.to_bits());
    assert_eq!(profile.top_p.unwrap().bits, 0.9f64.to_bits());
    assert_eq!(profile.repeat_penalty.bits, 1.1f32.to_bits());
    assert_eq!(profile.max_new_tokens, 128);
    assert_eq!(LlmRuntimeConfig::default().profiles, vec![profile]);
}

#[test]
fn blank_ids_and_missing_profiles_are_refused() {
    let blank = LlmRuntimeConfig {
        profiles: vec![profile(" \t")],
        routing: LlmTaskRoutingConfig::default(),
    };
    assert_eq!(blank.validate(), Err(LlmRuntimeError::InvalidProfileId));
    let none =
        LlmRuntimeConfig { profiles: Vec::new(), routing: LlmTaskRoutingConfig::default() };
    assert_eq!(none.validate(), Err(LlmRuntimeError::MissingProfiles));
    let unrouted = LlmRuntimeConfig {
        profiles: vec![profile("a")],
        routing: routing("a", "b"),
    };
    assert_eq!(
        unrouted.validate(),
        Err(LlmRuntimeError::MissingRoutedProfile {
            route: "fact_extraction_profile",
            profile_id: String::from("b"),
        })
    );
}

#[test]
fn ids_are_trimmed_before_they_are_told_apart() {
    let config = LlmRuntimeConfig {
        profiles: vec![profile(" a "), profile("a")],
        routing: routing("a", "a"),
    };
    assert_eq!(config.validate(), Err(LlmRuntimeError::DuplicateProfileId(String::from("a"))));
    let valid = LlmRuntimeConfig { profiles: vec![profile(" a ")], routing: routing("a", "a") }
        .validate()
        .unwrap();
    assert_eq!(valid.profiles[0].id, "a");
    let again = LlmRuntimeConfig {
        profiles: valid.profiles.clone(),
        routing: valid.routing.clone(),
    };
    assert_eq!(again.validate().unwrap(), valid);
}

#[test]
fn profiles_are_listed_in_the_order_of_their_ids() {
    let index = LlmRuntimeConfig {
        profiles: vec![profile("smollm2"), profile("qwen"), profile("zeta"), profile("Alpha")],
        routing: routing("qwen", "smollm2"),
    }
    .profiles_by_id()
    .unwrap();
    let ids = index.iter().map(|(id, _)| id.as_str()).collect::<Vec<_>>();
    assert_eq!(ids, ["Alpha", "qwen", "smollm2", "zeta"]);
    assert!(index.iter().all(|(id, profile)| *id == profile.id));
    assert!(LlmRuntimeConfig { profiles: Vec::new(), routing: routing("a", "a") }
        .profiles_by_id()
        .is_err());
}

#[test]
fn turn_generation_mode_is_that_of_its_profile() {
    let mut qwen = profile("qwen");
    qwen.model = LlmModel::SmolLM3_3BQ4KM;
    let valid = LlmRuntimeConfig {
        profiles: vec![profile("smollm2"), qwen],
        routing: routing("qwen", "smollm2"),
    }
    .validate()
    .unwrap();
    assert_eq!(valid.turn_generation_tool_calling(), Ok(LlmToolCallingMode::AgenticXml));
    let mut broken = valid;
    broken.routing = routing("nowhere", "smollm2");
    assert_eq!(
        broken.turn_generation_tool_calling(),
        Err(LlmRuntimeError::MissingRoutedProfile {
            route: "turn_generation_profile",
            profile_id: String::from("nowhere"),
        })
    );
}

#[test]
fn errors_have_messages() {
    assert_eq!(
        LlmRuntimeError::MissingRoutedProfile {
            route: "turn_generation_profile",
            profile_id: String::from("x"),
        }
        .message(),
        "routed profile `x` for `turn_generation_profile` was not configured"
    );
    assert_eq!(LlmRuntimeError::Json(String::from("e")).message(), "serde json error: e");
    assert_eq!(LlmRuntimeError::Mistral(String::from("e")).message(), "mistral error: e");
    assert_eq!(
        LlmRuntimeError::MissingWeights.message(),
        "model weights were not found in the repository cache"
    );
    assert_eq!(
        LlmRuntimeError::UnsupportedModel("m").message(),
        "unsupported model configuration: m"
    );
    assert_eq!(
        LlmRuntimeError::MissingProfiles.message(),
        "runtime config must contain at least one profile"
    );
    assert_eq!(
        LlmRuntimeError::InvalidProfileId.message(),
        "runtime profile ids must be non-empty"
    );
    assert_eq!(
        LlmRuntimeError::DuplicateProfileId(String::from("d")).message(),
        "duplicate runtime profile id: d"
    );
    assert_eq!(
        LlmRuntimeError::MissingEosToken.message(),
        "the model config did not specify an end-of-sequence token"
    );
    assert_eq!(
        LlmRuntimeError::InvalidTurn(String::from("t")).message(),
        "failed to parse llm turn: t"
    );
    assert_eq!(LlmRuntimeError::Cancelled.message(), "generation cancelled");
}

#[test]
fn models_name_their_files() {
    assert_eq!(LlmModel::SmolLM2_360MInstruct.repo_id(), "HuggingFaceTB/SmolLM2-360M-Instruct");
    assert_eq!(
        LlmModel::SmolLM2_360MInstruct.tokenizer_repo_id(),
        "HuggingFaceTB/SmolLM2-360M-Instruct"
    );
    assert_eq!(LlmModel::SmolLM3_3BQ4KM.repo_id(), "ggml-org/SmolLM3-3B-GGUF");
    assert_eq!(LlmModel::SmolLM3_3BQ4KM.tokenizer_repo_id(), "HuggingFaceTB/SmolLM3-3B");
    assert_eq!(LlmModel::SmolLM3_3BQ4KM.revision(), "main");
    assert!(matches!(
        LlmModel::Qwen2_5_1_5BInstructQ2K.source_kind(),
        ModelSourceKind::QuantizedLlamaGguf { gguf_filename: "qwen2.5-1.5b-instruct-q2_k.gguf" }
    ));
    assert!(matches!(
        LlmModel::SmolLM2_360MInstruct.source_kind(),
        ModelSourceKind::DenseSafetensors
    ));
    assert!(matches!(LlmModel::SmolLM3_3BQ4KM.source_kind(), ModelSourceKind::SmolLM3Q4));
}

#[test]
fn sampling_follows_the_profile() {
    let mut given = profile("a");
    let plan = given.sampling_plan();
    assert!(!plan.deterministic);
    assert_eq!(plan.max_len, 128);
    assert_eq!(plan.repetition_penalty, Some(given.repeat_penalty));
    given.temperature = None;
    assert!(!given.sampling_plan().deterministic);
    given.top_p = None;
    given.repeat_penalty = Single { bits: 1.0f32.to_bits() };
    let plan = given.sampling_plan();
    assert!(plan.deterministic);
    assert_eq!(plan.repetition_penalty, None);
}
