//! Providers of language models by their kind, with messages that say their role.

pub mod deepseek;
pub mod error;
pub mod registry;

use vstd::prelude::*;
use crate::ai::message::{copy_calls, ToolCallModel};
use crate::ai::stream::UsageModel;
use crate::json::{Json, JsonModel};

pub use crate::ai::message::{Role, ToolCallRequest, ToolSpec};
pub use crate::ai::stream::Usage;
pub use crate::provider::deepseek::{DeepSeekConfig, DeepSeekProvider};

verus! {

/// The kinds of providers.
#[derive(Debug, Clone, Copy, PartialEq, Eq, Structural)]
pub enum ProviderType {
    Anthropic,
    OpenAI,
    Ollama,
    DeepSeek,
}

impl ProviderType {
    /// The name of the kind.
    pub open spec fn text(self) -> Seq<char> {
        match self {
            ProviderType::Anthropic => "anthropic"@,
            ProviderType::OpenAI => "openai"@,
            ProviderType::Ollama => "ollama"@,
            ProviderType::DeepSeek => "deepseek"@,
        }
    }

    /// The name of the kind.
    pub fn to_text(&self) -> (r: &'static str)
        ensures
            r@ == self.text(),
    {
        match self {
            ProviderType::Anthropic => "anthropic",
            ProviderType::OpenAI => "openai",
            ProviderType::Ollama => "ollama",
            ProviderType::DeepSeek => "deepseek",
        }
    }
}

/// A provider of language models.
pub trait Provider {
    /// What kind of provider it is.
    open spec fn kind(&self) -> ProviderType {
        arbitrary()
    }

    /// What kind of provider it is.
    fn provider_type(&self) -> (r: ProviderType)
        ensures
            r == self.kind(),
    ;
}

/// A message of a conversation.
#[derive(Debug)]
pub struct Message {
    pub role: Role,
    pub content: String,
    /// The tool calls that the assistant asks for.
    pub tool_calls: Option<Vec<ToolCallRequest>>,
    /// The tool call that is answered.
    pub tool_call_id: Option<String>,
}

/// What a message says.
pub struct MessageModel {
    pub role: Role,
    pub content: Seq<char>,
    pub tool_calls: Option<Seq<ToolCallModel>>,
    pub tool_call_id: Option<Seq<char>>,
}

impl DeepView for Message {
    type V = MessageModel;

    open spec fn deep_view(&self) -> MessageModel {
        MessageModel {
            role: self.role,
            content: self.content@,
            tool_calls: self.tool_calls.deep_view(),
            tool_call_id: self.tool_call_id.deep_view(),
        }
    }
}

impl Clone for Message {
    fn clone(&self) -> (r: Self)
        ensures
            r.deep_view() == self.deep_view(),
    {
        Message {
            role: self.role,
            content: self.content.clone(),
            tool_calls: match &self.tool_calls {
                Some(calls) => Some(copy_calls(calls)),
                None => None,
            },
            tool_call_id: match &self.tool_call_id {
                Some(id) => Some(id.clone()),
                None => None,
            },
        }
    }
}

impl Message {
    /// A message of the user.
    pub fn user(content: &str) -> (r: Self)
        ensures
            r.deep_view() == (MessageModel {
                role: Role::User,
                content: content@,
                tool_calls: None,
                tool_call_id: None,
            }),
    {
        Message { role: Role::User, content: content.to_owned(), tool_calls: None, tool_call_id: None }
    }

    /// A message of the assistant that asks for no tool call.
    pub fn assistant(content: &str) -> (r: Self)
        ensures
            r.deep_view() == (MessageModel {
                role: Role::Assistant,
                content: content@,
                tool_calls: None,
                tool_call_id: None,
            }),
    {
        Message { role: Role::Assistant, content: content.to_owned(), tool_calls: None, tool_call_id: None }
    }

    /// The answer to a tool call.
    pub fn tool_result(tool_call_id: &str, content: &str) -> (r: Self)
        ensures
            r.deep_view() == (MessageModel {
                role: Role::Tool,
                content: content@,
                tool_calls: None,
                tool_call_id: Some(tool_call_id@),
            }),
    {
        Message {
            role: Role::Tool,
            content: content.to_owned(),
            tool_calls: None,
            tool_call_id: Some(tool_call_id.to_owned()),
        }
    }
}

/// What a tool call gave back.
#[derive(Debug, Clone)]
pub struct ToolResult {
    pub tool_use_id: String,
    pub content: String,
    pub is_error: bool,
}

/// Why the language model stopped.
#[derive(Debug, Clone, Copy, PartialEq, Eq, Structural)]
pub enum StopReason {
    EndTurn,
    ToolUse,
    MaxTokens,
    StopSequence,
}

/// A chunk of a streamed reply.
#[derive(Debug, Clone)]
pub enum StreamChunk {
    Text(String),
    ToolUse { id: String, name: String, input: Json },
    ToolUseEnd,
    Finished { stop_reason: StopReason, usage: Usage },
}

/// What a chunk says.
pub enum ChunkModel {
    Text(Seq<char>),
    ToolUse { id: Seq<char>, name: Seq<char>, input: JsonModel },
    ToolUseEnd,
    Finished { stop_reason: StopReason, usage: UsageModel },
}

impl DeepView for StreamChunk {
    type V = ChunkModel;

    open spec fn deep_view(&self) -> ChunkModel {
        match *self {
            StreamChunk::Text(t) => ChunkModel::Text(t@),
            StreamChunk::ToolUse { id, name, input } => ChunkModel::ToolUse {
                id: id@,
                name: name@,
                input: input.model(),
            },
            StreamChunk::ToolUseEnd => ChunkModel::ToolUseEnd,
            StreamChunk::Finished { stop_reason, usage } => ChunkModel::Finished {
                stop_reason,
                usage: usage.deep_view(),
            },
        }
    }
}

/// A reason for stopping among the reasons that any provider may give.
pub open spec fn any_stop_reason(r: crate::ai::stream::StopReason) -> StopReason {
    match r {
        crate::ai::stream::StopReason::EndTurn => StopReason::EndTurn,
        crate::ai::stream::StopReason::ToolUse => StopReason::ToolUse,
        crate::ai::stream::StopReason::MaxTokens => StopReason::MaxTokens,
    }
}

/// A chunk among the chunks that any provider may send.
pub open spec fn any_chunk(c: crate::ai::stream::ChunkModel) -> ChunkModel {
    match c {
        crate::ai::stream::ChunkModel::Text(t) => ChunkModel::Text(t),
        crate::ai::stream::ChunkModel::ToolUse { id, name, input } => ChunkModel::ToolUse { id, name, input },
        crate::ai::stream::ChunkModel::Finished { stop_reason, usage } => ChunkModel::Finished {
            stop_reason: any_stop_reason(stop_reason),
            usage,
        },
    }
}

impl StreamChunk {
    /// A chunk among the chunks that any provider may send.
    pub fn from_reply(chunk: crate::ai::stream::StreamChunk) -> (r: Self)
        ensures
            r.deep_view() == any_chunk(chunk.deep_view()),
    {
        match chunk {
            crate::ai::stream::StreamChunk::Text(t) => StreamChunk::Text(t),
            crate::ai::stream::StreamChunk::ToolUse { id, name, input } => StreamChunk::ToolUse { id, name, input },
            crate::ai::stream::StreamChunk::Finished { stop_reason, usage } => StreamChunk::Finished {
                stop_reason: match stop_reason {
                    crate::ai::stream::StopReason::EndTurn => StopReason::EndTurn,
                    crate::ai::stream::StopReason::ToolUse => StopReason::ToolUse,
                    crate::ai::stream::StopReason::MaxTokens => StopReason::MaxTokens,
                },
                usage,
            },
        }
    }
}

/// Nothing is lost when a chunk is passed on: its text, the call that it asks for, the
/// reason for stopping and the tokens stay what they are.
pub proof fn lemma_chunk_is_passed_on(c: crate::ai::stream::ChunkModel)
    ensures
        c matches crate::ai::stream::ChunkModel::Text(t) ==> any_chunk(c) == ChunkModel::Text(t),
        c matches crate::ai::stream::ChunkModel::ToolUse { id, name, input } ==> any_chunk(c) == (ChunkModel::ToolUse {
            id,
            name,
            input,
        }),
        c matches crate::ai::stream::ChunkModel::Finished { stop_reason, usage } ==> {
            &&& any_chunk(c) matches ChunkModel::Finished { stop_reason: why, usage: tokens }
            &&& tokens == usage
            &&& why == StopReason::ToolUse <==> stop_reason == crate::ai::stream::StopReason::ToolUse
            &&& why == StopReason::MaxTokens <==> stop_reason == crate::ai::stream::StopReason::MaxTokens
            &&& why == StopReason::EndTurn <==> stop_reason == crate::ai::stream::StopReason::EndTurn
        },
{
}

} // verus!
