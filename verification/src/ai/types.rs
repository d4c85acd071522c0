//! The description of a language model in a catalogue.

use vstd::prelude::*;

verus! {

/// The interface by which a language model is spoken to.
#[derive(Debug, Clone, Copy, PartialEq, Eq, Structural)]
pub enum Api {
    OpenaiCompletions,
    OpenaiResponses,
    OpenaiCodexResponses,
    AnthropicMessages,
}

/// How hard a language model is to think.
#[derive(Debug, Clone, Copy, PartialEq, Eq, Structural)]
pub enum ThinkingLevel {
    /// Not at all.
    Off,
    Low,
    Medium,
    High,
    Xhigh,
    Max,
}

/// A language model that the provider `P` offers.
#[derive(Debug)]
pub struct Model<P> {
    /// Its identifier.
    pub id: String,
    /// The name under which it is shown.
    pub name: String,
    /// Who offers it.
    pub provider: P,
    /// The provider's address.
    pub base_url: String,
    /// The interface by which it is spoken to.
    pub api: Api,
    /// How much it may say.
    pub max_tokens: Option<u32>,
    /// Whether it can think.
    pub reasoning: bool,
    /// How hard it is to think, if it can.
    pub thinking_level: Option<ThinkingLevel>,
    /// How freely it is to choose its words.
    pub temperature: Option<serde_json::Number>,
}

} // verus!
