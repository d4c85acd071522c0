//! What a tool gives back.

use vstd::prelude::*;

verus! {

/// What a tool gives back.
#[derive(Debug)]
pub struct ToolOutput {
    pub content: String,
    pub is_error: bool,
    /// Whether the tool has done nothing yet and waits for the user's consent.
    pub needs_approval: bool,
    /// The path that the consent is asked for.
    pub approval_path: Option<String>,
}

/// What a tool gives back.
pub struct ToolOutputModel {
    pub content: Seq<char>,
    pub is_error: bool,
    pub needs_approval: bool,
    pub approval_path: Option<Seq<char>>,
}

impl DeepView for ToolOutput {
    type V = ToolOutputModel;

    open spec fn deep_view(&self) -> ToolOutputModel {
        ToolOutputModel {
            content: self.content@,
            is_error: self.is_error,
            needs_approval: self.needs_approval,
            approval_path: self.approval_path.deep_view(),
        }
    }
}

impl Clone for ToolOutput {
    fn clone(&self) -> (r: Self)
        ensures
            r.deep_view() == self.deep_view(),
    {
        ToolOutput {
            content: self.content.clone(),
            is_error: self.is_error,
            needs_approval: self.needs_approval,
            approval_path: match &self.approval_path {
                Some(path) => Some(path.clone()),
                None => None,
            },
        }
    }
}

/// An output that needs no approval.
pub open spec fn output(content: Seq<char>, is_error: bool) -> ToolOutputModel {
    ToolOutputModel { content, is_error, needs_approval: false, approval_path: None }
}

/// A request for the user's consent.
pub open spec fn approval_request(content: Seq<char>, path: Seq<char>) -> ToolOutputModel {
    ToolOutputModel { content, is_error: false, needs_approval: true, approval_path: Some(path) }
}

impl ToolOutput {
    /// The output of a tool that succeeded.
    pub fn ok(content: String) -> (r: Self)
        ensures
            r.deep_view() == output(content@, false),
    {
        ToolOutput::ok_with_status(content, false)
    }

    /// The output of a tool that failed.
    pub fn error(content: String) -> (r: Self)
        ensures
            r.deep_view() == output(content@, true),
    {
        ToolOutput::ok_with_status(content, true)
    }

    /// The output of a tool that ran, with or without success.
    pub fn ok_with_status(content: String, is_error: bool) -> (r: Self)
        ensures
            r.deep_view() == output(content@, is_error),
    {
        ToolOutput { content, is_error, needs_approval: false, approval_path: None }
    }

    /// A request for the user's consent.
    pub fn approval(content: String, path: String) -> (r: Self)
        ensures
            r.deep_view() == approval_request(content@, path@),
    {
        ToolOutput { content, is_error: false, needs_approval: true, approval_path: Some(path) }
    }
}

} // verus!
