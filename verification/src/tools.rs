//! The tools that are offered to a model.

use crate::json::{data_of, Json, JsonData};
use crate::model::LlmToolCallingMode;
use crate::text::contains_text;
use crate::types::{LlmResponseMode, LlmToolDefinition, ToolDefinition};
use vstd::prelude::*;

verus! {

/// Lightweight summary of the tools exposed to a model.
#[derive(Debug, PartialEq)]
pub struct LlmToolSet {
    names: Vec<String>,
    definitions: Vec<LlmToolDefinition>,
}

impl LlmToolSet {
    /// The names of the tools.
    pub closed spec fn listed(&self) -> Seq<Seq<char>> {
        self.names.deep_view()
    }

    /// The definitions of the tools.
    pub closed spec fn defined(&self) -> Seq<ToolDefinition> {
        self.definitions.deep_view()
    }

    pub fn new(names: Vec<String>, definitions: Vec<LlmToolDefinition>) -> (r: Self)
        ensures
            r.listed() == names.deep_view(),
            r.defined() == definitions.deep_view(),
    {
        LlmToolSet { names, definitions }
    }

    /// Whether a tool of that name is listed.
    pub fn contains(&self, name: &str) -> (r: bool)
        ensures
            r == self.listed().contains(name@),
    {
        contains_text(self.names.as_slice(), name)
    }

    /// The definitions of the tools.
    pub fn definitions(&self) -> (r: &[LlmToolDefinition])
        ensures
            r.deep_view() == self.defined(),
    {
        self.definitions.as_slice()
    }
}

impl Clone for LlmToolSet {
    fn clone(&self) -> (r: Self)
        ensures
            r.listed() == self.listed(),
            r.defined() == self.defined(),
    {
        let names = self.names.clone();
        let definitions = self.definitions.clone();
        assert(names.deep_view() =~= self.names.deep_view());
        assert(definitions.deep_view() =~= self.definitions.deep_view());
        LlmToolSet { names, definitions }
    }
}

/// Whether a tool has parameters that a model is told of: an object with a member.
pub fn has_parameters(tool: &LlmToolDefinition) -> (r: bool)
    ensures
        r == (tool.deep_view().parameters matches Json::Object(members) && members.len() > 0),
{
    match data_of(&tool.parameters) {
        JsonData::Object(members) => members.len() > 0,
        _ => false,
    }
}

/// Whether the tools of a turn are exposed to the model: not in a local chat, nor where
/// the profile does not call tools.
pub fn exposes_tools(
    response_mode: LlmResponseMode,
    tools: &[LlmToolDefinition],
    tool_calling: LlmToolCallingMode,
) -> (r: bool)
    ensures
        r == (response_mode != LlmResponseMode::PlainTextChat && tools@.len() > 0 && tool_calling
            != LlmToolCallingMode::Disabled),
{
    response_mode != LlmResponseMode::PlainTextChat && tools.len() > 0 && tool_calling
        != LlmToolCallingMode::Disabled
}

/// Error returned when an LLM action cannot be handed off to the game thread.
#[derive(Debug, PartialEq, Eq)]
pub enum LLMActionError {
    Dispatch(String),
}

impl LLMActionError {
    /// The message of the error.
    pub fn message(&self) -> (r: String)
        ensures
            self matches LLMActionError::Dispatch(reason) ==> r@
                == "failed to dispatch LLM action: "@ + reason@,
    {
        match self {
            LLMActionError::Dispatch(reason) => {
                let mut text = "failed to dispatch LLM action: ".to_string();
                text.append(reason.as_str());
                text
            },
        }
    }
}

} // verus!
