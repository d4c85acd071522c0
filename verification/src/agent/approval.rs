//! The wait for the user's consent to a tool call.

use vstd::prelude::*;
use crate::agent::handle::{ApprovalDecision, DecisionModel, SteeringMessage, SteeringModel};
use crate::ai::message::{Message, MessageModel};
use crate::text;

verus! {

/// How the wait ends.
#[derive(Debug)]
pub enum ApprovalAction {
    /// The tool call may go on.
    Approved,
    /// The tool call may not go on.
    Denied { reason: String },
    /// The agent was stopped.
    Aborted,
}

/// How the wait ends.
pub enum ApprovalActionModel {
    Approved,
    Denied { reason: Seq<char> },
    Aborted,
}

impl DeepView for ApprovalAction {
    type V = ApprovalActionModel;

    open spec fn deep_view(&self) -> ApprovalActionModel {
        match *self {
            ApprovalAction::Approved => ApprovalActionModel::Approved,
            ApprovalAction::Denied { reason } => ApprovalActionModel::Denied { reason: reason@ },
            ApprovalAction::Aborted => ApprovalActionModel::Aborted,
        }
    }
}

/// How a message ends the wait for an answer to the tool call `expected_id`, if
/// it does. An answer to another call does not.
pub open spec fn answered(expected_id: Seq<char>, msg: SteeringModel) -> Option<ApprovalActionModel> {
    match msg {
        SteeringModel::ApprovalResponse { tool_call_id, decision } => if tool_call_id == expected_id {
            match decision {
                DecisionModel::Approved => Some(ApprovalActionModel::Approved),
                DecisionModel::Denied { reason } => Some(ApprovalActionModel::Denied { reason }),
            }
        } else {
            None
        },
        SteeringModel::InjectMessage(_) => None,
    }
}

/// The messages that are put aside during the wait, after a further message.
pub open spec fn put_aside(injected: Seq<MessageModel>, msg: SteeringModel) -> Seq<MessageModel> {
    match msg {
        SteeringModel::InjectMessage(m) => injected.push(m),
        _ => injected,
    }
}

/// Takes up a message during the wait for an answer to the tool call
/// `expected_id`. A message for the conversation is put aside, to be handed back
/// when the wait is over.
pub fn wait_for_approval(expected_id: &str, msg: SteeringMessage, injected: &mut Vec<Message>) -> (r: Option<
    ApprovalAction,
>)
    ensures
        r.deep_view() == answered(expected_id@, msg.deep_view()),
        final(injected).deep_view() == put_aside(old(injected).deep_view(), msg.deep_view()),
{
    let ghost before = injected.deep_view();
    match msg {
        SteeringMessage::ApprovalResponse { tool_call_id, decision } => {
            if text::same_text(tool_call_id.as_str(), expected_id) {
                match decision {
                    ApprovalDecision::Approved => Some(ApprovalAction::Approved),
                    ApprovalDecision::Denied { reason } => Some(ApprovalAction::Denied { reason }),
                }
            } else {
                None
            }
        },
        SteeringMessage::InjectMessage(m) => {
            injected.push(m);
            assert(injected.deep_view() =~= before.push(m.deep_view()));
            None
        },
    }
}

} // verus!
