//! What happens during a run, and what it comes to.

use vstd::prelude::*;
use crate::ai::message::{copy_messages, Message, MessageModel};
use crate::ai::stream::{Usage, UsageModel};
use crate::json::{Json, JsonModel};

verus! {

/// What happens during a run.
#[derive(Debug)]
pub enum AgentEvent {
    /// The language model said something.
    Text(String),
    /// The language model asks for a tool.
    ToolRequest { id: String, name: String, input: Json },
    /// A tool gave something back.
    ToolResponse { id: String, content: String, is_error: bool },
    /// A tool waits for the user's consent.
    ApprovalRequired { tool_call_id: String, tool_name: String, path: String, message: String },
    /// The language model ended its turn.
    TurnEnd { usage: Usage },
    /// Something went wrong.
    Error {
        message: String,
        /// Whether the run goes on.
        recoverable: bool,
    },
    /// The run is over. This is the last event.
    Done { messages: Vec<Message> },
}

/// What happens during a run.
pub enum EventModel {
    Text(Seq<char>),
    ToolRequest { id: Seq<char>, name: Seq<char>, input: JsonModel },
    ToolResponse { id: Seq<char>, content: Seq<char>, is_error: bool },
    ApprovalRequired { tool_call_id: Seq<char>, tool_name: Seq<char>, path: Seq<char>, message: Seq<char> },
    TurnEnd { usage: UsageModel },
    Error { message: Seq<char>, recoverable: bool },
    Done { messages: Seq<MessageModel> },
}

impl DeepView for AgentEvent {
    type V = EventModel;

    open spec fn deep_view(&self) -> EventModel {
        match *self {
            AgentEvent::Text(t) => EventModel::Text(t@),
            AgentEvent::ToolRequest { id, name, input } => EventModel::ToolRequest {
                id: id@,
                name: name@,
                input: input.model(),
            },
            AgentEvent::ToolResponse { id, content, is_error } => EventModel::ToolResponse {
                id: id@,
                content: content@,
                is_error,
            },
            AgentEvent::ApprovalRequired { tool_call_id, tool_name, path, message } => EventModel::ApprovalRequired {
                tool_call_id: tool_call_id@,
                tool_name: tool_name@,
                path: path@,
                message: message@,
            },
            AgentEvent::TurnEnd { usage } => EventModel::TurnEnd { usage: usage.deep_view() },
            AgentEvent::Error { message, recoverable } => EventModel::Error { message: message@, recoverable },
            AgentEvent::Done { messages } => EventModel::Done { messages: messages.deep_view() },
        }
    }
}

impl Clone for AgentEvent {
    fn clone(&self) -> (r: Self)
        ensures
            r.deep_view() == self.deep_view(),
    {
        match self {
            AgentEvent::Text(t) => AgentEvent::Text(t.clone()),
            AgentEvent::ToolRequest { id, name, input } => AgentEvent::ToolRequest {
                id: id.clone(),
                name: name.clone(),
                input: input.clone(),
            },
            AgentEvent::ToolResponse { id, content, is_error } => AgentEvent::ToolResponse {
                id: id.clone(),
                content: content.clone(),
                is_error: *is_error,
            },
            AgentEvent::ApprovalRequired { tool_call_id, tool_name, path, message } => AgentEvent::ApprovalRequired {
                tool_call_id: tool_call_id.clone(),
                tool_name: tool_name.clone(),
                path: path.clone(),
                message: message.clone(),
            },
            AgentEvent::TurnEnd { usage } => AgentEvent::TurnEnd { usage: usage.clone() },
            AgentEvent::Error { message, recoverable } => AgentEvent::Error {
                message: message.clone(),
                recoverable: *recoverable,
            },
            AgentEvent::Done { messages } => AgentEvent::Done { messages: copy_messages(messages) },
        }
    }
}

/// What a run comes to.
#[derive(Debug)]
pub struct AgentResult {
    pub messages: Vec<Message>,
    pub total_turns: usize,
    pub usage: Usage,
}

/// What a run comes to.
#[verifier::ext_equal]
pub struct ResultModel {
    pub messages: Seq<MessageModel>,
    pub total_turns: nat,
    pub usage: UsageModel,
}

impl DeepView for AgentResult {
    type V = ResultModel;

    open spec fn deep_view(&self) -> ResultModel {
        ResultModel {
            messages: self.messages.deep_view(),
            total_turns: self.total_turns as nat,
            usage: self.usage.deep_view(),
        }
    }
}

impl Clone for AgentResult {
    fn clone(&self) -> (r: Self)
        ensures
            r.deep_view() == self.deep_view(),
    {
        AgentResult {
            messages: copy_messages(&self.messages),
            total_turns: self.total_turns,
            usage: self.usage.clone(),
        }
    }
}

impl Default for AgentResult {
    fn default() -> (r: Self)
        ensures
            r.messages@.len() == 0,
            r.total_turns == 0,
            r.usage.deep_view() == crate::ai::stream::token_usage(0, 0),
    {
        AgentResult { messages: Vec::new(), total_turns: 0, usage: Usage::default() }
    }
}

} // verus!
