//! The models that can be run, and how each of them calls tools.

use vstd::prelude::*;

verus! {

/// Supported local model configurations.
#[allow(non_camel_case_types)]
#[derive(Debug, Clone, Copy, PartialEq, Eq, Structural)]
pub enum LlmModel {
    /// HuggingFaceTB/SmolLM2-360M-Instruct.
    SmolLM2_360MInstruct,
    /// HuggingFaceTB/SmolLM2-1.7B-Instruct quantized to Q4_K_M GGUF.
    SmolLM2_1_7BInstructQ4KM,
    /// Qwen/Qwen2.5-1.5B-Instruct quantized to Q2_K GGUF.
    Qwen2_5_1_5BInstructQ2K,
    /// Qwen/Qwen2.5-1.5B-Instruct quantized to Q4_K_M GGUF.
    Qwen2_5_1_5BInstructQ4KM,
    /// HuggingFaceTB/SmolLM3-3B quantized to Q4_K_M GGUF.
    ///
    /// This variant is kept for API stability. If the referenced GGUF artifact
    /// is unavailable or unsupported by the runtime backend, loading fails fast.
    SmolLM3_3BQ4KM,
}

/// How the weights of a model are stored.
#[derive(Debug, Clone, Copy)]
pub enum ModelSourceKind {
    DenseSafetensors,
    QuantizedLlamaGguf { gguf_filename: &'static str },
    SmolLM3Q4,
}

/// The repository that holds the weights of a model.
pub open spec fn repository(model: LlmModel) -> Seq<char> {
    match model {
        LlmModel::SmolLM2_360MInstruct => "HuggingFaceTB/SmolLM2-360M-Instruct"@,
        LlmModel::SmolLM2_1_7BInstructQ4KM => "HuggingFaceTB/SmolLM2-1.7B-Instruct-GGUF"@,
        LlmModel::Qwen2_5_1_5BInstructQ2K => "Qwen/Qwen2.5-1.5B-Instruct-GGUF"@,
        LlmModel::Qwen2_5_1_5BInstructQ4KM => "Qwen/Qwen2.5-1.5B-Instruct-GGUF"@,
        LlmModel::SmolLM3_3BQ4KM => "ggml-org/SmolLM3-3B-GGUF"@,
    }
}

/// The repository that holds the tokenizer of a model.
pub open spec fn tokenizer_repository(model: LlmModel) -> Seq<char> {
    match model {
        LlmModel::SmolLM2_360MInstruct => repository(model),
        LlmModel::SmolLM2_1_7BInstructQ4KM => "HuggingFaceTB/SmolLM2-1.7B-Instruct"@,
        LlmModel::Qwen2_5_1_5BInstructQ2K => "Qwen/Qwen2.5-1.5B-Instruct"@,
        LlmModel::Qwen2_5_1_5BInstructQ4KM => "Qwen/Qwen2.5-1.5B-Instruct"@,
        LlmModel::SmolLM3_3BQ4KM => "HuggingFaceTB/SmolLM3-3B"@,
    }
}

/// The file that holds the quantized weights of a model, where one does.
pub open spec fn gguf_file(model: LlmModel) -> Option<Seq<char>> {
    match model {
        LlmModel::SmolLM2_360MInstruct => None,
        LlmModel::SmolLM2_1_7BInstructQ4KM => Some("smollm2-1.7b-instruct-q4_k_m.gguf"@),
        LlmModel::Qwen2_5_1_5BInstructQ2K => Some("qwen2.5-1.5b-instruct-q2_k.gguf"@),
        LlmModel::Qwen2_5_1_5BInstructQ4KM => Some("qwen2.5-1.5b-instruct-q4_k_m.gguf"@),
        LlmModel::SmolLM3_3BQ4KM => None,
    }
}

impl LlmModel {
    /// The repository that holds the weights.
    pub fn repo_id(self) -> (r: &'static str)
        ensures
            r@ == repository(self),
    {
        match self {
            LlmModel::SmolLM2_360MInstruct => "HuggingFaceTB/SmolLM2-360M-Instruct",
            LlmModel::SmolLM2_1_7BInstructQ4KM => "HuggingFaceTB/SmolLM2-1.7B-Instruct-GGUF",
            LlmModel::Qwen2_5_1_5BInstructQ2K => "Qwen/Qwen2.5-1.5B-Instruct-GGUF",
            LlmModel::Qwen2_5_1_5BInstructQ4KM => "Qwen/Qwen2.5-1.5B-Instruct-GGUF",
            LlmModel::SmolLM3_3BQ4KM => "ggml-org/SmolLM3-3B-GGUF",
        }
    }

    /// The revision of the repositories.
    pub fn revision(self) -> (r: &'static str)
        ensures
            r@ == "main"@,
    {
        "main"
    }

    /// The repository that holds the tokenizer.
    pub fn tokenizer_repo_id(self) -> (r: &'static str)
        ensures
            r@ == tokenizer_repository(self),
    {
        match self {
            LlmModel::SmolLM2_360MInstruct => self.repo_id(),
            LlmModel::SmolLM2_1_7BInstructQ4KM => "HuggingFaceTB/SmolLM2-1.7B-Instruct",
            LlmModel::Qwen2_5_1_5BInstructQ2K => "Qwen/Qwen2.5-1.5B-Instruct",
            LlmModel::Qwen2_5_1_5BInstructQ4KM => "Qwen/Qwen2.5-1.5B-Instruct",
            LlmModel::SmolLM3_3BQ4KM => "HuggingFaceTB/SmolLM3-3B",
        }
    }

    /// How the weights are stored: in a quantized file, quantized on loading, or dense.
    pub fn source_kind(self) -> (r: ModelSourceKind)
        ensures
            match r {
                ModelSourceKind::DenseSafetensors => self == LlmModel::SmolLM2_360MInstruct,
                ModelSourceKind::QuantizedLlamaGguf { gguf_filename } => gguf_file(self) == Some(
                    gguf_filename@,
                ),
                ModelSourceKind::SmolLM3Q4 => self == LlmModel::SmolLM3_3BQ4KM,
            },
    {
        match self {
            LlmModel::SmolLM2_360MInstruct => ModelSourceKind::DenseSafetensors,
            LlmModel::SmolLM2_1_7BInstructQ4KM => ModelSourceKind::QuantizedLlamaGguf {
                gguf_filename: "smollm2-1.7b-instruct-q4_k_m.gguf",
            },
            LlmModel::Qwen2_5_1_5BInstructQ2K => ModelSourceKind::QuantizedLlamaGguf {
                gguf_filename: "qwen2.5-1.5b-instruct-q2_k.gguf",
            },
            LlmModel::Qwen2_5_1_5BInstructQ4KM => ModelSourceKind::QuantizedLlamaGguf {
                gguf_filename: "qwen2.5-1.5b-instruct-q4_k_m.gguf",
            },
            LlmModel::SmolLM3_3BQ4KM => ModelSourceKind::SmolLM3Q4,
        }
    }
}

/// Model-specific tool calling behavior for a runtime profile.
#[derive(Debug, Clone, Copy, PartialEq, Eq, Structural)]
pub enum LlmToolCallingMode {
    /// Do not expose tools to the model.
    Disabled,
    /// Use the model's recommended tool-calling format.
    Auto,
    /// Expose tools and let the model choose when to use them.
    Native,
    /// Expose tools using the agentic XML style used by SmolLM3.
    AgenticXml,
    /// Expose tools using a python-style call format.
    Python,
}

impl Default for LlmToolCallingMode {
    fn default() -> (r: Self)
        ensures
            r == LlmToolCallingMode::Disabled,
    {
        LlmToolCallingMode::Disabled
    }
}

/// The format in which a model calls tools: the one that is set, or the one that the
/// model is made for.
pub open spec fn resolved_mode(mode: LlmToolCallingMode, model: LlmModel) -> LlmToolCallingMode {
    if mode != LlmToolCallingMode::Auto {
        mode
    } else if model == LlmModel::SmolLM3_3BQ4KM {
        LlmToolCallingMode::AgenticXml
    } else {
        LlmToolCallingMode::Native
    }
}

impl LlmToolCallingMode {
    /// The format in which a model calls tools.
    pub fn resolve_for_model(self, model: LlmModel) -> (r: Self)
        ensures
            r == resolved_mode(self, model),
    {
        match self {
            LlmToolCallingMode::Auto => match model {
                LlmModel::SmolLM3_3BQ4KM => LlmToolCallingMode::AgenticXml,
                LlmModel::SmolLM2_360MInstruct
                | LlmModel::SmolLM2_1_7BInstructQ4KM
                | LlmModel::Qwen2_5_1_5BInstructQ2K
                | LlmModel::Qwen2_5_1_5BInstructQ4KM => LlmToolCallingMode::Native,
            },
            other => other,
        }
    }
}

/// A mode is resolved once: no model's format is `Auto`, and resolving it again changes
/// nothing.
pub proof fn law_resolving_is_idempotent(mode: LlmToolCallingMode, model: LlmModel, other: LlmModel)
    ensures
        resolved_mode(mode, model) != LlmToolCallingMode::Auto,
        resolved_mode(resolved_mode(mode, model), other) == resolved_mode(mode, model),
{
}

/// The name of a tool calling format in a prompt.
pub open spec fn mode_name(mode: LlmToolCallingMode) -> Seq<char> {
    match mode {
        LlmToolCallingMode::Disabled => "disabled"@,
        LlmToolCallingMode::Auto => "auto"@,
        LlmToolCallingMode::Native => "native"@,
        LlmToolCallingMode::AgenticXml => "agentic XML"@,
        LlmToolCallingMode::Python => "python"@,
    }
}

/// The name of a tool calling format in a prompt.
pub fn tool_calling_mode_display(mode: LlmToolCallingMode) -> (r: &'static str)
    ensures
        r@ == mode_name(mode),
{
    match mode {
        LlmToolCallingMode::Disabled => "disabled",
        LlmToolCallingMode::Auto => "auto",
        LlmToolCallingMode::Native => "native",
        LlmToolCallingMode::AgenticXml => "agentic XML",
        LlmToolCallingMode::Python => "python",
    }
}

} // verus!
