//! In what way a provider is spoken to: pure encoding, without a network.

pub mod encoding;
pub mod openai_completions;

use vstd::prelude::*;
use crate::ai::error::{AiError, AiErrorModel};
use crate::ai::message::{Message, MessageModel, ToolSpec, ToolSpecModel};
use crate::json::{copy_number, JsonModel};

verus! {

/// A wire protocol.
#[derive(Debug, Clone, Copy, PartialEq, Eq, Structural)]
pub enum ProtocolKind {
    OpenAiCompletions,
    OpenAiResponses,
    AnthropicMessages,
    OpenAiCodexResponses,
}

/// How hard the language model is to think.
#[derive(Debug, Clone, Copy, PartialEq, Eq, Structural)]
pub enum ThinkingLevel {
    /// Not at all.
    Off,
    Low,
    Medium,
    High,
    Xhigh,
    Max,
}

/// How the language model is to choose its words.
#[derive(Debug)]
pub struct SamplingParams {
    pub max_tokens: Option<u32>,
    pub temperature: Option<serde_json::Number>,
    pub thinking_level: Option<ThinkingLevel>,
}

impl Default for SamplingParams {
    fn default() -> (r: Self)
        ensures
            r == (SamplingParams { max_tokens: None, temperature: None, thinking_level: None }),
    {
        SamplingParams { max_tokens: None, temperature: None, thinking_level: None }
    }
}

impl Clone for SamplingParams {
    fn clone(&self) -> (r: Self)
        ensures
            r == *self,
    {
        SamplingParams {
            max_tokens: self.max_tokens,
            temperature: match &self.temperature {
                Some(t) => Some(copy_number(t)),
                None => None,
            },
            thinking_level: self.thinking_level,
        }
    }
}

/// What is asked of the language model.
pub struct RequestModel {
    pub model_id: Seq<char>,
    pub params: SamplingParams,
    pub messages: Seq<MessageModel>,
    pub tools: Seq<ToolSpecModel>,
}

/// What came of encoding a request.
pub open spec fn encoded_model(r: Result<serde_json::Value, AiError>) -> Result<JsonModel, AiErrorModel> {
    match r {
        Ok(v) => Ok(crate::json::value_contents(v)),
        Err(e) => Err(e.deep_view()),
    }
}

/// A wire protocol: how a request is written.
pub trait Protocol {
    /// Which protocol it is.
    open spec fn protocol_kind(&self) -> ProtocolKind {
        arbitrary()
    }

    /// The path of its requests below the provider's address.
    open spec fn path(&self) -> Seq<char> {
        arbitrary()
    }

    /// The headers of its requests.
    open spec fn headers(&self) -> Seq<(Seq<char>, Seq<char>)> {
        arbitrary()
    }

    /// The body of a request.
    open spec fn body(&self, request: RequestModel) -> Result<JsonModel, AiErrorModel> {
        arbitrary()
    }

    /// Which protocol it is.
    fn kind(&self) -> (r: ProtocolKind)
        ensures
            r == self.protocol_kind(),
    ;

    /// The path of its requests below the provider's address.
    fn endpoint_path(&self) -> (r: &str)
        ensures
            r@ == self.path(),
    ;

    /// The headers of its requests, without those that show a key.
    fn protocol_headers(&self) -> (r: Vec<(String, String)>)
        ensures
            r.deep_view() == self.headers(),
    ;

    /// The body of a request.
    fn build_body(
        &self,
        model_id: &str,
        params: &SamplingParams,
        messages: &[Message],
        tools: &[ToolSpec],
    ) -> (r: Result<serde_json::Value, AiError>)
        ensures
            encoded_model(r) == self.body(
                RequestModel {
                    model_id: model_id@,
                    params: *params,
                    messages: messages.deep_view(),
                    tools: tools.deep_view(),
                },
            ),
    ;
}

} // verus!
