//! The conversation: messages, roles, tool calls and tool specifications.

use vstd::prelude::*;
use crate::json::{Json, JsonModel};

verus! {

/// Who speaks.
#[derive(Debug, Clone, Copy, PartialEq, Eq, Structural)]
pub enum Role {
    System,
    User,
    Assistant,
    Tool,
}

/// A tool call that the assistant asks for.
#[derive(Debug)]
pub struct ToolCallRequest {
    pub id: String,
    pub name: String,
    pub input: Json,
}

/// What a tool call asks for.
pub struct ToolCallModel {
    pub id: Seq<char>,
    pub name: Seq<char>,
    pub input: JsonModel,
}

impl DeepView for ToolCallRequest {
    type V = ToolCallModel;

    open spec fn deep_view(&self) -> ToolCallModel {
        ToolCallModel { id: self.id@, name: self.name@, input: self.input.model() }
    }
}

impl Clone for ToolCallRequest {
    fn clone(&self) -> (r: Self)
        ensures
            r.deep_view() == self.deep_view(),
    {
        ToolCallRequest { id: self.id.clone(), name: self.name.clone(), input: self.input.clone() }
    }
}

/// A tool as the language model is told of it.
#[derive(Debug)]
pub struct ToolSpec {
    pub name: String,
    pub description: String,
    /// The JSON Schema of the tool's input.
    pub parameters: Json,
}

/// What the language model is told of a tool.
pub struct ToolSpecModel {
    pub name: Seq<char>,
    pub description: Seq<char>,
    pub parameters: JsonModel,
}

impl DeepView for ToolSpec {
    type V = ToolSpecModel;

    open spec fn deep_view(&self) -> ToolSpecModel {
        ToolSpecModel {
            name: self.name@,
            description: self.description@,
            parameters: self.parameters.model(),
        }
    }
}

impl Clone for ToolSpec {
    fn clone(&self) -> (r: Self)
        ensures
            r.deep_view() == self.deep_view(),
    {
        ToolSpec {
            name: self.name.clone(),
            description: self.description.clone(),
            parameters: self.parameters.clone(),
        }
    }
}

/// A message of a conversation.
#[derive(Debug)]
pub enum Message {
    /// The system prompt.
    System { content: String },
    /// What the user says.
    User { content: String },
    /// What the language model says.
    Assistant {
        content: String,
        /// The tool calls that it asks for.
        tool_calls: Option<Vec<ToolCallRequest>>,
    },
    /// What a tool gave back.
    Tool {
        content: String,
        /// The tool call that was answered.
        tool_call_id: String,
    },
}

/// What a message says.
pub enum MessageModel {
    System { content: Seq<char> },
    User { content: Seq<char> },
    Assistant { content: Seq<char>, tool_calls: Option<Seq<ToolCallModel>> },
    Tool { content: Seq<char>, tool_call_id: Seq<char> },
}

impl MessageModel {
    /// Who says it.
    pub open spec fn role(self) -> Role {
        match self {
            MessageModel::System { .. } => Role::System,
            MessageModel::User { .. } => Role::User,
            MessageModel::Assistant { .. } => Role::Assistant,
            MessageModel::Tool { .. } => Role::Tool,
        }
    }

    /// Its text.
    pub open spec fn content(self) -> Seq<char> {
        match self {
            MessageModel::System { content } => content,
            MessageModel::User { content } => content,
            MessageModel::Assistant { content, .. } => content,
            MessageModel::Tool { content, .. } => content,
        }
    }
}

/// An assistant's message without tool calls.
pub open spec fn assistant_text(content: Seq<char>) -> MessageModel {
    MessageModel::Assistant { content, tool_calls: None }
}

impl DeepView for Message {
    type V = MessageModel;

    open spec fn deep_view(&self) -> MessageModel {
        match *self {
            Message::System { content } => MessageModel::System { content: content@ },
            Message::User { content } => MessageModel::User { content: content@ },
            Message::Assistant { content, tool_calls } => MessageModel::Assistant {
                content: content@,
                tool_calls: tool_calls.deep_view(),
            },
            Message::Tool { content, tool_call_id } => MessageModel::Tool {
                content: content@,
                tool_call_id: tool_call_id@,
            },
        }
    }
}

/// A copy of a list of tool calls.
pub fn copy_calls(calls: &Vec<ToolCallRequest>) -> (r: Vec<ToolCallRequest>)
    ensures
        r.deep_view() == calls.deep_view(),
{
    let r = calls.clone();
    assert(r.deep_view() =~= calls.deep_view());
    r
}

impl Clone for Message {
    fn clone(&self) -> (r: Self)
        ensures
            r.deep_view() == self.deep_view(),
    {
        match self {
            Message::System { content } => Message::System { content: content.clone() },
            Message::User { content } => Message::User { content: content.clone() },
            Message::Assistant { content, tool_calls } => Message::Assistant {
                content: content.clone(),
                tool_calls: match tool_calls {
                    Some(calls) => Some(copy_calls(calls)),
                    None => None,
                },
            },
            Message::Tool { content, tool_call_id } => Message::Tool {
                content: content.clone(),
                tool_call_id: tool_call_id.clone(),
            },
        }
    }
}

/// A copy of a conversation.
pub fn copy_messages(messages: &Vec<Message>) -> (r: Vec<Message>)
    ensures
        r.deep_view() == messages.deep_view(),
{
    let r = messages.clone();
    assert(r.deep_view() =~= messages.deep_view());
    r
}

impl Message {
    /// Who says it.
    pub fn role(&self) -> (r: Role)
        ensures
            r == self.deep_view().role(),
    {
        match self {
            Message::System { .. } => Role::System,
            Message::User { .. } => Role::User,
            Message::Assistant { .. } => Role::Assistant,
            Message::Tool { .. } => Role::Tool,
        }
    }

    /// Its text, whoever says it.
    pub fn content(&self) -> (r: &str)
        ensures
            r@ == self.deep_view().content(),
    {
        match self {
            Message::System { content } => content.as_str(),
            Message::User { content } => content.as_str(),
            Message::Assistant { content, .. } => content.as_str(),
            Message::Tool { content, .. } => content.as_str(),
        }
    }

    /// A message of the user.
    pub fn user(content: &str) -> (r: Self)
        ensures
            r.deep_view() == (MessageModel::User { content: content@ }),
    {
        Message::User { content: content.to_owned() }
    }

    /// A system prompt.
    pub fn system(content: &str) -> (r: Self)
        ensures
            r.deep_view() == (MessageModel::System { content: content@ }),
    {
        Message::System { content: content.to_owned() }
    }

    /// A message of the assistant that asks for no tool call.
    pub fn assistant(content: &str) -> (r: Self)
        ensures
            r.deep_view() == assistant_text(content@),
    {
        Message::Assistant { content: content.to_owned(), tool_calls: None }
    }

    /// The answer to a tool call.
    pub fn tool_result(tool_call_id: &str, content: &str) -> (r: Self)
        ensures
            r.deep_view() == (MessageModel::Tool { content: content@, tool_call_id: tool_call_id@ }),
    {
        Message::Tool { content: content.to_owned(), tool_call_id: tool_call_id.to_owned() }
    }
}

/// The role and the text of a message are those with which it was made.
pub proof fn lemma_message_says(content: Seq<char>, tool_calls: Option<Seq<ToolCallModel>>, tool_call_id: Seq<char>)
    ensures
        (MessageModel::System { content }).role() == Role::System,
        (MessageModel::User { content }).role() == Role::User,
        (MessageModel::Assistant { content, tool_calls }).role() == Role::Assistant,
        (MessageModel::Tool { content, tool_call_id }).role() == Role::Tool,
        (MessageModel::System { content }).content() == content,
        (MessageModel::User { content }).content() == content,
        (MessageModel::Assistant { content, tool_calls }).content() == content,
        (MessageModel::Tool { content, tool_call_id }).content() == content,
        assistant_text(content) == (MessageModel::Assistant { content, tool_calls: None }),
{
}

} // verus!
