//! What can be said to a running agent.

use vstd::prelude::*;
use crate::ai::message::{Message, MessageModel};

verus! {

/// What the user decides about a tool call.
#[derive(Debug)]
pub enum ApprovalDecision {
    /// It may go on.
    Approved,
    /// It may not.
    Denied { reason: String },
}

/// What the user decides about a tool call.
pub enum DecisionModel {
    Approved,
    Denied { reason: Seq<char> },
}

impl DeepView for ApprovalDecision {
    type V = DecisionModel;

    open spec fn deep_view(&self) -> DecisionModel {
        match *self {
            ApprovalDecision::Approved => DecisionModel::Approved,
            ApprovalDecision::Denied { reason } => DecisionModel::Denied { reason: reason@ },
        }
    }
}

impl Clone for ApprovalDecision {
    fn clone(&self) -> (r: Self)
        ensures
            r.deep_view() == self.deep_view(),
    {
        match self {
            ApprovalDecision::Approved => ApprovalDecision::Approved,
            ApprovalDecision::Denied { reason } => ApprovalDecision::Denied { reason: reason.clone() },
        }
    }
}

/// What can be said to a running agent.
#[derive(Debug)]
pub enum SteeringMessage {
    /// A message that joins the conversation.
    InjectMessage(Message),
    /// The answer to a request for approval.
    ApprovalResponse { tool_call_id: String, decision: ApprovalDecision },
}

/// What can be said to a running agent.
pub enum SteeringModel {
    InjectMessage(MessageModel),
    ApprovalResponse { tool_call_id: Seq<char>, decision: DecisionModel },
}

impl DeepView for SteeringMessage {
    type V = SteeringModel;

    open spec fn deep_view(&self) -> SteeringModel {
        match *self {
            SteeringMessage::InjectMessage(m) => SteeringModel::InjectMessage(m.deep_view()),
            SteeringMessage::ApprovalResponse { tool_call_id, decision } => SteeringModel::ApprovalResponse {
                tool_call_id: tool_call_id@,
                decision: decision.deep_view(),
            },
        }
    }
}

impl SteeringMessage {
    /// A message that joins the conversation.
    pub fn inject(msg: Message) -> (r: Self)
        ensures
            r.deep_view() == SteeringModel::InjectMessage(msg.deep_view()),
    {
        SteeringMessage::InjectMessage(msg)
    }

    /// The user's consent to a tool call.
    pub fn approve(tool_call_id: String) -> (r: Self)
        ensures
            r.deep_view() == (SteeringModel::ApprovalResponse {
                tool_call_id: tool_call_id@,
                decision: DecisionModel::Approved,
            }),
    {
        SteeringMessage::ApprovalResponse { tool_call_id, decision: ApprovalDecision::Approved }
    }

    /// The user's refusal of a tool call.
    pub fn deny(tool_call_id: String, reason: String) -> (r: Self)
        ensures
            r.deep_view() == (SteeringModel::ApprovalResponse {
                tool_call_id: tool_call_id@,
                decision: DecisionModel::Denied { reason: reason@ },
            }),
    {
        SteeringMessage::ApprovalResponse { tool_call_id, decision: ApprovalDecision::Denied { reason } }
    }
}

} // verus!
