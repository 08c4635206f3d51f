//! The commands that the game gives, and the events that come back.

use crate::types::{
    Fact, GeneratedConversation, LlmConversationFact, PlannedUtterance, Transcript, Utterance,
};
use vstd::prelude::*;

verus! {

/// Conversation lifecycle commands for named LLM threads.
#[derive(Debug, PartialEq, Eq)]
pub enum LlmConversationCommand {
    Reset { agent: String, conversation_id: String },
    Compact { agent: String, conversation_id: String },
    AppendMessage { agent: String, conversation_id: String, message: String },
}

/// What a [`LlmConversationCommand`] holds.
#[verifier::ext_equal]
pub enum ConversationCommand {
    Reset { agent: Seq<char>, conversation_id: Seq<char> },
    Compact { agent: Seq<char>, conversation_id: Seq<char> },
    AppendMessage { agent: Seq<char>, conversation_id: Seq<char>, message: Seq<char> },
}

impl DeepView for LlmConversationCommand {
    type V = ConversationCommand;

    open spec fn deep_view(&self) -> ConversationCommand {
        match self {
            LlmConversationCommand::Reset { agent, conversation_id } => ConversationCommand::Reset {
                agent: agent@,
                conversation_id: conversation_id@,
            },
            LlmConversationCommand::Compact {
                agent,
                conversation_id,
            } => ConversationCommand::Compact {
                agent: agent@,
                conversation_id: conversation_id@,
            },
            LlmConversationCommand::AppendMessage {
                agent,
                conversation_id,
                message,
            } => ConversationCommand::AppendMessage {
                agent: agent@,
                conversation_id: conversation_id@,
                message: message@,
            },
        }
    }
}

impl Clone for LlmConversationCommand {
    fn clone(&self) -> (r: Self)
        ensures
            r.deep_view() == self.deep_view(),
    {
        match self {
            LlmConversationCommand::Reset { agent, conversation_id } => {
                LlmConversationCommand::Reset {
                    agent: agent.clone(),
                    conversation_id: conversation_id.clone(),
                }
            },
            LlmConversationCommand::Compact { agent, conversation_id } => {
                LlmConversationCommand::Compact {
                    agent: agent.clone(),
                    conversation_id: conversation_id.clone(),
                }
            },
            LlmConversationCommand::AppendMessage { agent, conversation_id, message } => {
                LlmConversationCommand::AppendMessage {
                    agent: agent.clone(),
                    conversation_id: conversation_id.clone(),
                    message: message.clone(),
                }
            },
        }
    }
}

/// One-shot conversation generation commands.
#[derive(Debug, PartialEq, Eq)]
pub enum LlmConversationGenerationCommand {
    GenerateConversation {
        session_id: String,
        participants: Vec<String>,
        initial_message: String,
        facts: Vec<String>,
    },
    CancelConversation { session_id: String },
}

/// What a [`LlmConversationGenerationCommand`] holds.
#[verifier::ext_equal]
pub enum GenerationCommand {
    GenerateConversation {
        session_id: Seq<char>,
        participants: Seq<Seq<char>>,
        initial_message: Seq<char>,
        facts: Seq<Seq<char>>,
    },
    CancelConversation { session_id: Seq<char> },
}

impl DeepView for LlmConversationGenerationCommand {
    type V = GenerationCommand;

    open spec fn deep_view(&self) -> GenerationCommand {
        match self {
            LlmConversationGenerationCommand::GenerateConversation {
                session_id,
                participants,
                initial_message,
                facts,
            } => GenerationCommand::GenerateConversation {
                session_id: session_id@,
                participants: participants.deep_view(),
                initial_message: initial_message@,
                facts: facts.deep_view(),
            },
            LlmConversationGenerationCommand::CancelConversation {
                session_id,
            } => GenerationCommand::CancelConversation {
                session_id: session_id@,
            },
        }
    }
}

impl Clone for LlmConversationGenerationCommand {
    fn clone(&self) -> (r: Self)
        ensures
            r.deep_view() == self.deep_view(),
    {
        match self {
            LlmConversationGenerationCommand::GenerateConversation {
                session_id,
                participants,
                initial_message,
                facts,
            } => {
                let participants_copy = participants.clone();
                assert(participants_copy.deep_view() =~= participants.deep_view());
                let facts_copy = facts.clone();
                assert(facts_copy.deep_view() =~= facts.deep_view());
                LlmConversationGenerationCommand::GenerateConversation {
                    session_id: session_id.clone(),
                    participants: participants_copy,
                    initial_message: initial_message.clone(),
                    facts: facts_copy,
                }
            },
            LlmConversationGenerationCommand::CancelConversation { session_id } => {
                LlmConversationGenerationCommand::CancelConversation {
                    session_id: session_id.clone(),
                }
            },
        }
    }
}

/// One-shot conversation generation events emitted by the runtime.
#[derive(Debug, PartialEq)]
pub enum LlmConversationGenerationEvent {
    ConversationGenerated { conversation: GeneratedConversation },
    ConversationGenerationFailed { session_id: String, reason: String },
}

/// What a [`LlmConversationGenerationEvent`] holds.
#[verifier::ext_equal]
pub enum GenerationEvent {
    ConversationGenerated { conversation: Transcript },
    ConversationGenerationFailed { session_id: Seq<char>, reason: Seq<char> },
}

impl DeepView for LlmConversationGenerationEvent {
    type V = GenerationEvent;

    open spec fn deep_view(&self) -> GenerationEvent {
        match self {
            LlmConversationGenerationEvent::ConversationGenerated {
                conversation,
            } => GenerationEvent::ConversationGenerated {
                conversation: conversation.deep_view(),
            },
            LlmConversationGenerationEvent::ConversationGenerationFailed {
                session_id,
                reason,
            } => GenerationEvent::ConversationGenerationFailed {
                session_id: session_id@,
                reason: reason@,
            },
        }
    }
}

impl Clone for LlmConversationGenerationEvent {
    fn clone(&self) -> (r: Self)
        ensures
            r.deep_view() == self.deep_view(),
    {
        match self {
            LlmConversationGenerationEvent::ConversationGenerated { conversation } => {
                LlmConversationGenerationEvent::ConversationGenerated {
                    conversation: conversation.clone(),
                }
            },
            LlmConversationGenerationEvent::ConversationGenerationFailed { session_id, reason } => {
                LlmConversationGenerationEvent::ConversationGenerationFailed {
                    session_id: session_id.clone(),
                    reason: reason.clone(),
                }
            },
        }
    }
}

/// Direct fact extraction commands for conversation data.
#[derive(Debug, PartialEq)]
pub enum LlmFactExtractionCommand {
    ExtractFactFromUtterance {
        request_id: String,
        session_id: String,
        utterance_index: usize,
        utterance: PlannedUtterance,
    },
}

/// What a [`LlmFactExtractionCommand`] holds.
#[verifier::ext_equal]
pub enum ExtractionCommand {
    ExtractFactFromUtterance {
        request_id: Seq<char>,
        session_id: Seq<char>,
        utterance_index: usize,
        utterance: Utterance,
    },
}

impl DeepView for LlmFactExtractionCommand {
    type V = ExtractionCommand;

    open spec fn deep_view(&self) -> ExtractionCommand {
        match self {
            LlmFactExtractionCommand::ExtractFactFromUtterance {
                request_id,
                session_id,
                utterance_index,
                utterance,
            } => ExtractionCommand::ExtractFactFromUtterance {
                request_id: request_id@,
                session_id: session_id@,
                utterance_index: *utterance_index,
                utterance: utterance.deep_view(),
            },
        }
    }
}

impl Clone for LlmFactExtractionCommand {
    fn clone(&self) -> (r: Self)
        ensures
            r.deep_view() == self.deep_view(),
    {
        match self {
            LlmFactExtractionCommand::ExtractFactFromUtterance {
                request_id,
                session_id,
                utterance_index,
                utterance,
            } => {
                LlmFactExtractionCommand::ExtractFactFromUtterance {
                    request_id: request_id.clone(),
                    session_id: session_id.clone(),
                    utterance_index: *utterance_index,
                    utterance: utterance.clone(),
                }
            },
        }
    }
}

/// Prompt-level fact storage commands.
#[derive(Debug, PartialEq, Eq)]
pub enum LlmFactStoreCommand {
    StoreFactsFromPrompt { request_id: String, text: String, agents: Vec<String> },
}

/// What a [`LlmFactStoreCommand`] holds.
#[verifier::ext_equal]
pub enum StoreCommand {
    StoreFactsFromPrompt { request_id: Seq<char>, text: Seq<char>, agents: Seq<Seq<char>> },
}

impl DeepView for LlmFactStoreCommand {
    type V = StoreCommand;

    open spec fn deep_view(&self) -> StoreCommand {
        match self {
            LlmFactStoreCommand::StoreFactsFromPrompt {
                request_id,
                text,
                agents,
            } => StoreCommand::StoreFactsFromPrompt {
                request_id: request_id@,
                text: text@,
                agents: agents.deep_view(),
            },
        }
    }
}

impl Clone for LlmFactStoreCommand {
    fn clone(&self) -> (r: Self)
        ensures
            r.deep_view() == self.deep_view(),
    {
        match self {
            LlmFactStoreCommand::StoreFactsFromPrompt { request_id, text, agents } => {
                let agents_copy = agents.clone();
                assert(agents_copy.deep_view() =~= agents.deep_view());
                LlmFactStoreCommand::StoreFactsFromPrompt {
                    request_id: request_id.clone(),
                    text: text.clone(),
                    agents: agents_copy,
                }
            },
        }
    }
}

/// Fact extraction results emitted by the runtime.
#[derive(Debug, PartialEq)]
pub enum LlmFactExtractionEvent {
    FactsExtractedFromUtterance {
        request_id: String,
        session_id: String,
        utterance_index: usize,
        utterance: PlannedUtterance,
        facts: Vec<LlmConversationFact>,
    },
    FactExtractionFailedForUtterance {
        request_id: String,
        session_id: String,
        utterance_index: usize,
        utterance: PlannedUtterance,
        reason: String,
    },
}

/// What a [`LlmFactExtractionEvent`] holds.
#[verifier::ext_equal]
pub enum ExtractionEvent {
    FactsExtractedFromUtterance {
        request_id: Seq<char>,
        session_id: Seq<char>,
        utterance_index: usize,
        utterance: Utterance,
        facts: Seq<Fact>,
    },
    FactExtractionFailedForUtterance {
        request_id: Seq<char>,
        session_id: Seq<char>,
        utterance_index: usize,
        utterance: Utterance,
        reason: Seq<char>,
    },
}

impl DeepView for LlmFactExtractionEvent {
    type V = ExtractionEvent;

    open spec fn deep_view(&self) -> ExtractionEvent {
        match self {
            LlmFactExtractionEvent::FactsExtractedFromUtterance {
                request_id,
                session_id,
                utterance_index,
                utterance,
                facts,
            } => ExtractionEvent::FactsExtractedFromUtterance {
                request_id: request_id@,
                session_id: session_id@,
                utterance_index: *utterance_index,
                utterance: utterance.deep_view(),
                facts: facts.deep_view(),
            },
            LlmFactExtractionEvent::FactExtractionFailedForUtterance {
                request_id,
                session_id,
                utterance_index,
                utterance,
                reason,
            } => ExtractionEvent::FactExtractionFailedForUtterance {
                request_id: request_id@,
                session_id: session_id@,
                utterance_index: *utterance_index,
                utterance: utterance.deep_view(),
                reason: reason@,
            },
        }
    }
}

impl Clone for LlmFactExtractionEvent {
    fn clone(&self) -> (r: Self)
        ensures
            r.deep_view() == self.deep_view(),
    {
        match self {
            LlmFactExtractionEvent::FactsExtractedFromUtterance {
                request_id,
                session_id,
                utterance_index,
                utterance,
                facts,
            } => {
                let facts_copy = facts.clone();
                assert(facts_copy.deep_view() =~= facts.deep_view());
                LlmFactExtractionEvent::FactsExtractedFromUtterance {
                    request_id: request_id.clone(),
                    session_id: session_id.clone(),
                    utterance_index: *utterance_index,
                    utterance: utterance.clone(),
                    facts: facts_copy,
                }
            },
            LlmFactExtractionEvent::FactExtractionFailedForUtterance {
                request_id,
                session_id,
                utterance_index,
                utterance,
                reason,
            } => {
                LlmFactExtractionEvent::FactExtractionFailedForUtterance {
                    request_id: request_id.clone(),
                    session_id: session_id.clone(),
                    utterance_index: *utterance_index,
                    utterance: utterance.clone(),
                    reason: reason.clone(),
                }
            },
        }
    }
}

/// Prompt-level fact storage results emitted by the runtime.
#[derive(Debug, PartialEq, Eq)]
pub enum LlmFactStoreEvent {
    FactsStored { request_id: String, agents: Vec<String>, facts: Vec<LlmConversationFact> },
    FactStorageFailed { request_id: String, agents: Vec<String>, reason: String },
}

/// What a [`LlmFactStoreEvent`] holds.
#[verifier::ext_equal]
pub enum StoreEvent {
    FactsStored { request_id: Seq<char>, agents: Seq<Seq<char>>, facts: Seq<Fact> },
    FactStorageFailed { request_id: Seq<char>, agents: Seq<Seq<char>>, reason: Seq<char> },
}

impl DeepView for LlmFactStoreEvent {
    type V = StoreEvent;

    open spec fn deep_view(&self) -> StoreEvent {
        match self {
            LlmFactStoreEvent::FactsStored {
                request_id,
                agents,
                facts,
            } => StoreEvent::FactsStored {
                request_id: request_id@,
                agents: agents.deep_view(),
                facts: facts.deep_view(),
            },
            LlmFactStoreEvent::FactStorageFailed {
                request_id,
                agents,
                reason,
            } => StoreEvent::FactStorageFailed {
                request_id: request_id@,
                agents: agents.deep_view(),
                reason: reason@,
            },
        }
    }
}

impl Clone for LlmFactStoreEvent {
    fn clone(&self) -> (r: Self)
        ensures
            r.deep_view() == self.deep_view(),
    {
        match self {
            LlmFactStoreEvent::FactsStored { request_id, agents, facts } => {
                let agents_copy = agents.clone();
                assert(agents_copy.deep_view() =~= agents.deep_view());
                let facts_copy = facts.clone();
                assert(facts_copy.deep_view() =~= facts.deep_view());
                LlmFactStoreEvent::FactsStored {
                    request_id: request_id.clone(),
                    agents: agents_copy,
                    facts: facts_copy,
                }
            },
            LlmFactStoreEvent::FactStorageFailed { request_id, agents, reason } => {
                let agents_copy = agents.clone();
                assert(agents_copy.deep_view() =~= agents.deep_view());
                LlmFactStoreEvent::FactStorageFailed {
                    request_id: request_id.clone(),
                    agents: agents_copy,
                    reason: reason.clone(),
                }
            },
        }
    }
}

} // verus!
