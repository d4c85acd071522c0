//! The loop of a run: ask the language model, run the tools that it asks for,
//! and ask again.
//!
//! [`AgentLoop`] decides; whoever drives it does what [`AgentLoop::action`] says
//! and hands what came of it to [`AgentLoop::step`].

use vstd::prelude::*;
use vstd::string::StringExecFns;
use crate::agent::event::{AgentEvent, AgentResult, EventModel, ResultModel};
use crate::agent::approval::{wait_for_approval, ApprovalAction, ApprovalActionModel};
use crate::agent::handle::{SteeringMessage, SteeringModel};
use crate::ai::message::{copy_calls, copy_messages, Message, MessageModel, ToolCallModel, ToolCallRequest};
use crate::ai::stream::{ChunkModel, StopReason, StreamChunk, Usage, UsageModel};
use crate::text;
use crate::tool::output::{ToolOutput, ToolOutputModel};

verus! {

// ---------------------------------------------------------------------------
// The reply of the language model
// ---------------------------------------------------------------------------

/// What has been read of a reply.
#[derive(Debug)]
pub struct StreamProgress {
    pub content: String,
    pub tool_requests: Vec<ToolCallRequest>,
    pub stop_reason: Option<StopReason>,
    pub usage: Usage,
}

/// What has been read of a reply.
#[verifier::ext_equal]
pub struct ProgressModel {
    pub content: Seq<char>,
    pub tool_requests: Seq<ToolCallModel>,
    pub stop_reason: Option<StopReason>,
    pub usage: UsageModel,
}

impl DeepView for StreamProgress {
    type V = ProgressModel;

    open spec fn deep_view(&self) -> ProgressModel {
        ProgressModel {
            content: self.content@,
            tool_requests: self.tool_requests.deep_view(),
            stop_reason: self.stop_reason,
            usage: self.usage.deep_view(),
        }
    }
}

/// What has been read before the first chunk.
pub open spec fn nothing_read() -> ProgressModel {
    ProgressModel {
        content: Seq::empty(),
        tool_requests: Seq::empty(),
        stop_reason: None,
        usage: crate::ai::stream::token_usage(0, 0),
    }
}

/// What has been read after a further chunk.
pub open spec fn read(p: ProgressModel, c: ChunkModel) -> ProgressModel {
    match c {
        ChunkModel::Text(t) => ProgressModel { content: p.content + t, ..p },
        ChunkModel::ToolUse { id, name, input } => ProgressModel {
            tool_requests: p.tool_requests.push(ToolCallModel { id, name, input }),
            ..p
        },
        ChunkModel::Finished { stop_reason, usage } => ProgressModel {
            stop_reason: Some(stop_reason),
            usage,
            ..p
        },
    }
}

/// What is to be seen of a chunk.
pub open spec fn seen(c: ChunkModel) -> Seq<EventModel> {
    match c {
        ChunkModel::Text(t) => seq![EventModel::Text(t)],
        _ => Seq::empty(),
    }
}

/// How a reply ends.
#[derive(Debug)]
pub enum StreamEnd {
    /// There are no more chunks.
    Closed,
    /// The next chunk could not be had.
    Failed(String),
    /// The user stopped the agent.
    Aborted,
}

/// How a reply ends.
pub enum StreamEndModel {
    Closed,
    Failed(Seq<char>),
    Aborted,
}

impl DeepView for StreamEnd {
    type V = StreamEndModel;

    open spec fn deep_view(&self) -> StreamEndModel {
        match *self {
            StreamEnd::Closed => StreamEndModel::Closed,
            StreamEnd::Failed(e) => StreamEndModel::Failed(e@),
            StreamEnd::Aborted => StreamEndModel::Aborted,
        }
    }
}

/// What a reply comes to.
#[derive(Debug)]
pub enum StreamOutcome {
    /// The language model ended its turn without asking for a tool.
    EndTurn { content: String, usage: Usage },
    /// The language model asks for one or more tools.
    ToolUse { content: String, tool_calls: Vec<ToolCallRequest>, usage: Usage },
    /// The language model had to stop before it was done.
    MaxTokens { content: String, usage: Usage },
    /// The reply broke off.
    StreamError { content: String, error_message: String, usage: Usage },
}

/// What a reply comes to.
pub enum OutcomeModel {
    EndTurn { content: Seq<char>, usage: UsageModel },
    ToolUse { content: Seq<char>, tool_calls: Seq<ToolCallModel>, usage: UsageModel },
    MaxTokens { content: Seq<char>, usage: UsageModel },
    StreamError { content: Seq<char>, error_message: Seq<char>, usage: UsageModel },
}

impl DeepView for StreamOutcome {
    type V = OutcomeModel;

    open spec fn deep_view(&self) -> OutcomeModel {
        match *self {
            StreamOutcome::EndTurn { content, usage } => OutcomeModel::EndTurn {
                content: content@,
                usage: usage.deep_view(),
            },
            StreamOutcome::ToolUse { content, tool_calls, usage } => OutcomeModel::ToolUse {
                content: content@,
                tool_calls: tool_calls.deep_view(),
                usage: usage.deep_view(),
            },
            StreamOutcome::MaxTokens { content, usage } => OutcomeModel::MaxTokens {
                content: content@,
                usage: usage.deep_view(),
            },
            StreamOutcome::StreamError { content, error_message, usage } => OutcomeModel::StreamError {
                content: content@,
                error_message: error_message@,
                usage: usage.deep_view(),
            },
        }
    }
}

impl OutcomeModel {
    /// The tokens that the reply took.
    pub open spec fn usage(self) -> UsageModel {
        match self {
            OutcomeModel::EndTurn { usage, .. } => usage,
            OutcomeModel::ToolUse { usage, .. } => usage,
            OutcomeModel::MaxTokens { usage, .. } => usage,
            OutcomeModel::StreamError { usage, .. } => usage,
        }
    }
}

/// What a reply comes to that broke off.
pub open spec fn broken_off(p: ProgressModel, message: Seq<char>) -> OutcomeModel {
    OutcomeModel::StreamError { content: p.content, error_message: message, usage: p.usage }
}

/// What a reply comes to. Whatever reason the language model gives for stopping,
/// the tools that it asked for count; if it asked for none, its turn is over.
pub open spec fn outcome(p: ProgressModel, end: StreamEndModel) -> OutcomeModel {
    match end {
        StreamEndModel::Aborted => broken_off(p, "Agent aborted by user"@),
        StreamEndModel::Failed(e) => broken_off(p, "Provider stream error: "@ + e),
        StreamEndModel::Closed => match p.stop_reason {
            None => broken_off(p, "Stream ended without a stop reason"@),
            Some(_) if p.tool_requests.len() > 0 => OutcomeModel::ToolUse {
                content: p.content,
                tool_calls: p.tool_requests,
                usage: p.usage,
            },
            Some(StopReason::MaxTokens) => OutcomeModel::MaxTokens { content: p.content, usage: p.usage },
            Some(_) => OutcomeModel::EndTurn { content: p.content, usage: p.usage },
        },
    }
}

impl StreamOutcome {
    /// The tokens that the reply took.
    pub fn usage(&self) -> (r: &Usage)
        ensures
            r.deep_view() == self.deep_view().usage(),
    {
        match self {
            StreamOutcome::EndTurn { usage, .. } => usage,
            StreamOutcome::ToolUse { usage, .. } => usage,
            StreamOutcome::MaxTokens { usage, .. } => usage,
            StreamOutcome::StreamError { usage, .. } => usage,
        }
    }
}

impl StreamProgress {
    /// Nothing has been read.
    pub fn new() -> (r: Self)
        ensures
            r.deep_view() == nothing_read(),
    {
        let r = StreamProgress {
            content: String::new(),
            tool_requests: Vec::new(),
            stop_reason: None,
            usage: Usage::default(),
        };
        assert(r.deep_view() =~= nothing_read());
        r
    }

    /// Reads a chunk and returns what is to be seen of it.
    pub fn read(&mut self, chunk: StreamChunk) -> (events: Vec<AgentEvent>)
        ensures
            final(self).deep_view() == read(old(self).deep_view(), chunk.deep_view()),
            events.deep_view() == seen(chunk.deep_view()),
    {
        let mut events: Vec<AgentEvent> = Vec::new();
        let ghost before = self.deep_view();
        match chunk {
            StreamChunk::Text(t) => {
                self.content.append(t.as_str());
                events.push(AgentEvent::Text(t));
            },
            StreamChunk::ToolUse { id, name, input } => {
                self.tool_requests.push(ToolCallRequest { id, name, input });
            },
            StreamChunk::Finished { stop_reason, usage } => {
                self.stop_reason = Some(stop_reason);
                self.usage = usage;
            },
        }
        assert(self.deep_view() =~= read(before, chunk.deep_view()));
        assert(events.deep_view() =~= seen(chunk.deep_view()));
        events
    }

    /// What the reply comes to when it ends.
    pub fn outcome(self, end: StreamEnd) -> (r: StreamOutcome)
        ensures
            r.deep_view() == outcome(self.deep_view(), end.deep_view()),
    {
        let content = self.content;
        let usage = self.usage;
        match end {
            StreamEnd::Aborted => StreamOutcome::StreamError {
                content,
                error_message: "Agent aborted by user".to_owned(),
                usage,
            },
            StreamEnd::Failed(e) => StreamOutcome::StreamError {
                content,
                error_message: "Provider stream error: ".to_owned().concat(e.as_str()),
                usage,
            },
            StreamEnd::Closed => match self.stop_reason {
                None => StreamOutcome::StreamError {
                    content,
                    error_message: "Stream ended without a stop reason".to_owned(),
                    usage,
                },
                Some(reason) => {
                    if self.tool_requests.len() > 0 {
                        StreamOutcome::ToolUse { content, tool_calls: self.tool_requests, usage }
                    } else if reason == StopReason::MaxTokens {
                        StreamOutcome::MaxTokens { content, usage }
                    } else {
                        StreamOutcome::EndTurn { content, usage }
                    }
                },
            },
        }
    }
}

// ---------------------------------------------------------------------------
// The state of a run
// ---------------------------------------------------------------------------

/// Where a run is.
#[derive(Debug)]
enum Phase {
    /// A round begins: has the user stopped the agent?
    CheckingAbort,
    /// Messages for the conversation are taken up, and answers that nobody waits for
    /// are dropped.
    Draining,
    /// The language model is being asked.
    CallingModel,
    /// The reply is being read.
    Streaming(StreamProgress),
    /// A tool runs.
    RunningTool { calls: Vec<ToolCallRequest>, index: usize },
    /// A tool waits for the user's consent.
    AwaitingApproval { calls: Vec<ToolCallRequest>, index: usize, injected: Vec<Message> },
    /// A tool runs with the user's consent.
    RunningApproved { calls: Vec<ToolCallRequest>, index: usize },
    /// The run is over.
    Finished,
}

/// Where a run is.
pub enum PhaseModel {
    CheckingAbort,
    Draining,
    CallingModel,
    Streaming(ProgressModel),
    RunningTool { calls: Seq<ToolCallModel>, index: int },
    AwaitingApproval { calls: Seq<ToolCallModel>, index: int, injected: Seq<MessageModel> },
    RunningApproved { calls: Seq<ToolCallModel>, index: int },
    Finished,
}

impl DeepView for Phase {
    type V = PhaseModel;

    closed spec fn deep_view(&self) -> PhaseModel {
        match *self {
            Phase::CheckingAbort => PhaseModel::CheckingAbort,
            Phase::Draining => PhaseModel::Draining,
            Phase::CallingModel => PhaseModel::CallingModel,
            Phase::Streaming(p) => PhaseModel::Streaming(p.deep_view()),
            Phase::RunningTool { calls, index } => PhaseModel::RunningTool {
                calls: calls.deep_view(),
                index: index as int,
            },
            Phase::AwaitingApproval { calls, index, injected } => PhaseModel::AwaitingApproval {
                calls: calls.deep_view(),
                index: index as int,
                injected: injected.deep_view(),
            },
            Phase::RunningApproved { calls, index } => PhaseModel::RunningApproved {
                calls: calls.deep_view(),
                index: index as int,
            },
            Phase::Finished => PhaseModel::Finished,
        }
    }
}

/// The state of a run.
pub struct LoopModel {
    pub history: Seq<MessageModel>,
    /// The round, counted from 0.
    pub round: nat,
    pub max_rounds: nat,
    /// The rounds that came to their end.
    pub total_turns: nat,
    pub input_tokens: nat,
    pub output_tokens: nat,
    pub phase: PhaseModel,
}

impl LoopModel {
    /// The tool call that is dealt with.
    pub open spec fn call(self) -> Option<ToolCallModel> {
        match self.phase {
            PhaseModel::RunningTool { calls, index } => Some(calls[index]),
            PhaseModel::AwaitingApproval { calls, index, .. } => Some(calls[index]),
            PhaseModel::RunningApproved { calls, index } => Some(calls[index]),
            _ => None,
        }
    }

    /// Whether there is a tool call where one is dealt with, and a round is left
    /// while the run goes on.
    pub open spec fn valid(self) -> bool {
        &&& self.total_turns <= self.max_rounds
        &&& self.phase !is Finished ==> self.total_turns <= self.round < self.max_rounds
        &&& match self.phase {
            PhaseModel::RunningTool { calls, index } => 0 <= index < calls.len(),
            PhaseModel::AwaitingApproval { calls, index, .. } => 0 <= index < calls.len(),
            PhaseModel::RunningApproved { calls, index } => 0 <= index < calls.len(),
            _ => true,
        }
    }
}

/// What the driver of a run reports.
#[derive(Debug)]
pub enum LoopInput {
    /// The user has not stopped the agent.
    NotAborted,
    /// The user has stopped the agent.
    Aborted,
    /// Something was said to the agent.
    Steering(SteeringMessage),
    /// Nothing was said to the agent.
    SteeringEmpty,
    /// Nothing will be said to the agent any more.
    SteeringClosed,
    /// The language model replies.
    ModelOpened,
    /// The language model could not be asked.
    ModelRefused(String),
    /// A chunk of the reply.
    Chunk(StreamChunk),
    /// The reply is complete.
    StreamClosed,
    /// The reply broke off.
    StreamFailed(String),
    /// What the tool gave back, or nothing if there is no such tool.
    ToolFinished(Option<ToolOutput>),
}

/// What the driver of a run reports.
pub enum InputModel {
    NotAborted,
    Aborted,
    Steering(SteeringModel),
    SteeringEmpty,
    SteeringClosed,
    ModelOpened,
    ModelRefused(Seq<char>),
    Chunk(ChunkModel),
    StreamClosed,
    StreamFailed(Seq<char>),
    ToolFinished(Option<ToolOutputModel>),
}

impl DeepView for LoopInput {
    type V = InputModel;

    open spec fn deep_view(&self) -> InputModel {
        match *self {
            LoopInput::NotAborted => InputModel::NotAborted,
            LoopInput::Aborted => InputModel::Aborted,
            LoopInput::Steering(m) => InputModel::Steering(m.deep_view()),
            LoopInput::SteeringEmpty => InputModel::SteeringEmpty,
            LoopInput::SteeringClosed => InputModel::SteeringClosed,
            LoopInput::ModelOpened => InputModel::ModelOpened,
            LoopInput::ModelRefused(e) => InputModel::ModelRefused(e@),
            LoopInput::Chunk(c) => InputModel::Chunk(c.deep_view()),
            LoopInput::StreamClosed => InputModel::StreamClosed,
            LoopInput::StreamFailed(e) => InputModel::StreamFailed(e@),
            LoopInput::ToolFinished(output) => InputModel::ToolFinished(output.deep_view()),
        }
    }
}

/// What comes of a step.
#[derive(Debug)]
pub struct StepOutput {
    /// What happened.
    pub events: Vec<AgentEvent>,
    /// The messages for the conversation that were put aside. They are to be
    /// said to the agent again.
    pub reinjected: Vec<Message>,
}

/// The state after a step and what comes of the step.
pub struct StepModel {
    pub state: LoopModel,
    pub events: Seq<EventModel>,
    pub reinjected: Seq<MessageModel>,
}

// ---------------------------------------------------------------------------
// What a step does
// ---------------------------------------------------------------------------

/// A step after which the run is in `phase`.
pub open spec fn entered(s: LoopModel, phase: PhaseModel, events: Seq<EventModel>) -> StepModel {
    StepModel { state: LoopModel { phase, ..s }, events, reinjected: Seq::empty() }
}

/// A step of which nothing is to be seen.
pub open spec fn quiet(s: LoopModel) -> StepModel {
    StepModel { state: s, events: Seq::empty(), reinjected: Seq::empty() }
}

/// A step that ends the run.
pub open spec fn finished(s: LoopModel, events: Seq<EventModel>) -> StepModel {
    entered(s, PhaseModel::Finished, events.push(EventModel::Done { messages: s.history }))
}

/// An error after which the run does not go on.
pub open spec fn fatal(message: Seq<char>) -> EventModel {
    EventModel::Error { message, recoverable: false }
}

/// The conversation after the assistant said `content`.
pub open spec fn with_text(history: Seq<MessageModel>, content: Seq<char>) -> Seq<MessageModel> {
    if content.len() == 0 {
        history
    } else {
        history.push(crate::ai::message::assistant_text(content))
    }
}

/// A step that ends a round of tool calls.
pub open spec fn next_round(s: LoopModel, events: Seq<EventModel>) -> StepModel {
    let s = LoopModel { total_turns: s.total_turns + 1, ..s };
    if s.round + 1 >= s.max_rounds {
        finished(
            s,
            events.push(fatal("Maximum tool rounds exceeded ("@ + text::decimal(s.max_rounds) + ")"@)),
        )
    } else {
        entered(LoopModel { round: s.round + 1, ..s }, PhaseModel::CheckingAbort, events)
    }
}

/// The event of a tool call that begins.
pub open spec fn tool_request(call: ToolCallModel) -> EventModel {
    EventModel::ToolRequest { id: call.id, name: call.name, input: call.input }
}

/// A step that begins the tool call `index`, or ends the round if there is none.
pub open spec fn next_call(s: LoopModel, calls: Seq<ToolCallModel>, index: int, events: Seq<EventModel>) -> StepModel {
    if index < calls.len() {
        entered(s, PhaseModel::RunningTool { calls, index }, events.push(tool_request(calls[index])))
    } else {
        next_round(s, events)
    }
}

/// A step that answers the tool call `index`.
pub open spec fn call_answered(
    s: LoopModel,
    calls: Seq<ToolCallModel>,
    index: int,
    content: Seq<char>,
    is_error: bool,
) -> StepModel {
    let id = calls[index].id;
    let s = LoopModel { history: s.history.push(MessageModel::Tool { content, tool_call_id: id }), ..s };
    next_call(s, calls, index + 1, seq![EventModel::ToolResponse { id, content, is_error }])
}

/// The answers to the tool calls that could not run.
pub open spec fn abandoned(calls: Seq<ToolCallModel>, index: int) -> Seq<MessageModel> {
    Seq::new(
        (calls.len() - index) as nat,
        |i: int|
            MessageModel::Tool {
                content: "Aborted: agent was stopped before this tool could complete"@,
                tool_call_id: calls[index + i].id,
            },
    )
}

/// A step that takes up what the reply came to.
pub open spec fn replied(s: LoopModel, o: OutcomeModel) -> StepModel {
    let s = LoopModel {
        input_tokens: s.input_tokens + o.usage().input_tokens,
        output_tokens: s.output_tokens + o.usage().output_tokens,
        ..s
    };
    match o {
        OutcomeModel::EndTurn { content, .. } => turn_ended(s, content),
        OutcomeModel::MaxTokens { content, .. } => turn_ended(s, content),
        OutcomeModel::ToolUse { content, tool_calls, .. } => {
            let s = LoopModel {
                history: s.history.push(MessageModel::Assistant { content, tool_calls: Some(tool_calls) }),
                ..s
            };
            next_call(s, tool_calls, 0, Seq::empty())
        },
        OutcomeModel::StreamError { content, error_message, .. } => {
            finished(LoopModel { history: with_text(s.history, content), ..s }, seq![fatal(error_message)])
        },
    }
}

/// A step that ends the run with the language model's turn.
pub open spec fn turn_ended(s: LoopModel, content: Seq<char>) -> StepModel {
    finished(
        LoopModel { history: with_text(s.history, content), total_turns: s.total_turns + 1, ..s },
        seq![EventModel::TurnEnd { usage: crate::ai::stream::token_usage(s.input_tokens, s.output_tokens) }],
    )
}

/// What a tool gave back, or an error if there is no such tool.
pub open spec fn tool_output(name: Seq<char>, output: Option<ToolOutputModel>) -> ToolOutputModel {
    match output {
        Some(o) => o,
        None => crate::tool::output::output("未知工具: "@ + name, true),
    }
}

/// What a tool call that the user refused gives back.
pub open spec fn refusal(reason: Seq<char>) -> Seq<char> {
    if reason.len() == 0 {
        "用户拒绝了此操作"@
    } else {
        "用户拒绝了此操作: "@ + reason
    }
}

/// The request for the user's consent to a tool call.
pub open spec fn approval_required(call: ToolCallModel, o: ToolOutputModel) -> EventModel {
    EventModel::ApprovalRequired {
        tool_call_id: call.id,
        tool_name: call.name,
        path: match o.approval_path {
            Some(p) => p,
            None => Seq::empty(),
        },
        message: o.content,
    }
}

/// A step that ends the wait for the user's consent.
pub open spec fn decided(
    s: LoopModel,
    calls: Seq<ToolCallModel>,
    index: int,
    injected: Seq<MessageModel>,
    action: ApprovalActionModel,
) -> StepModel {
    let step = match action {
        ApprovalActionModel::Approved => entered(s, PhaseModel::RunningApproved { calls, index }, Seq::empty()),
        ApprovalActionModel::Denied { reason } => call_answered(s, calls, index, refusal(reason), true),
        ApprovalActionModel::Aborted => finished(
            LoopModel { history: s.history + abandoned(calls, index), ..s },
            seq![fatal("Agent aborted while waiting for approval"@)],
        ),
    };
    StepModel { reinjected: injected, ..step }
}

/// What a step does. A report that the run does not wait for is ignored.
pub open spec fn step(s: LoopModel, i: InputModel) -> StepModel {
    match s.phase {
        PhaseModel::CheckingAbort => match i {
            InputModel::Aborted => finished(s, seq![fatal("Agent aborted by user"@)]),
            InputModel::NotAborted => entered(s, PhaseModel::Draining, Seq::empty()),
            _ => quiet(s),
        },
        PhaseModel::Draining => match i {
            InputModel::Steering(SteeringModel::InjectMessage(m)) => quiet(
                LoopModel { history: s.history.push(m), ..s },
            ),
            InputModel::SteeringEmpty => entered(s, PhaseModel::CallingModel, Seq::empty()),
            InputModel::SteeringClosed => entered(s, PhaseModel::CallingModel, Seq::empty()),
            _ => quiet(s),
        },
        PhaseModel::CallingModel => match i {
            InputModel::ModelOpened => entered(s, PhaseModel::Streaming(nothing_read()), Seq::empty()),
            InputModel::ModelRefused(e) => finished(s, seq![fatal("Provider error: "@ + e)]),
            _ => quiet(s),
        },
        PhaseModel::Streaming(p) => match i {
            InputModel::Chunk(c) => entered(s, PhaseModel::Streaming(read(p, c)), seen(c)),
            InputModel::StreamClosed => replied(s, outcome(p, StreamEndModel::Closed)),
            InputModel::StreamFailed(e) => replied(s, outcome(p, StreamEndModel::Failed(e))),
            InputModel::Aborted => replied(s, outcome(p, StreamEndModel::Aborted)),
            _ => quiet(s),
        },
        PhaseModel::RunningTool { calls, index } => match i {
            InputModel::ToolFinished(output) => {
                let o = tool_output(calls[index].name, output);
                if o.needs_approval {
                    entered(
                        s,
                        PhaseModel::AwaitingApproval { calls, index, injected: Seq::empty() },
                        seq![approval_required(calls[index], o)],
                    )
                } else {
                    call_answered(s, calls, index, o.content, o.is_error)
                }
            },
            _ => quiet(s),
        },
        PhaseModel::AwaitingApproval { calls, index, injected } => match i {
            InputModel::Steering(msg) => match crate::agent::approval::answered(calls[index].id, msg) {
                Some(action) => decided(s, calls, index, injected, action),
                None => entered(
                    s,
                    PhaseModel::AwaitingApproval {
                        calls,
                        index,
                        injected: crate::agent::approval::put_aside(injected, msg),
                    },
                    Seq::empty(),
                ),
            },
            InputModel::SteeringClosed => decided(s, calls, index, injected, ApprovalActionModel::Aborted),
            InputModel::Aborted => decided(s, calls, index, injected, ApprovalActionModel::Aborted),
            _ => quiet(s),
        },
        PhaseModel::RunningApproved { calls, index } => match i {
            InputModel::ToolFinished(output) => {
                let o = tool_output(calls[index].name, output);
                call_answered(s, calls, index, o.content, o.is_error)
            },
            _ => quiet(s),
        },
        PhaseModel::Finished => quiet(s),
    }
}

/// The first step: a run without rounds is over at once.
pub open spec fn start(history: Seq<MessageModel>, max_rounds: nat) -> StepModel {
    let s = LoopModel {
        history,
        round: 0,
        max_rounds,
        total_turns: 0,
        input_tokens: 0,
        output_tokens: 0,
        phase: PhaseModel::CheckingAbort,
    };
    if max_rounds == 0 {
        finished(s, Seq::empty())
    } else {
        quiet(s)
    }
}

/// Whether the tokens of the run can still be counted after the step.
pub open spec fn countable(s: LoopModel, i: InputModel) -> bool {
    match s.phase {
        PhaseModel::Streaming(p) => (i is StreamClosed || i is StreamFailed || i is Aborted) ==> {
            &&& s.input_tokens + p.usage.input_tokens <= u64::MAX
            &&& s.output_tokens + p.usage.output_tokens <= u64::MAX
        },
        _ => true,
    }
}

// ---------------------------------------------------------------------------
// The loop
// ---------------------------------------------------------------------------

/// What the driver of a run is to do next.
#[derive(Debug)]
pub enum LoopAction<'a> {
    /// See whether the user has stopped the agent.
    PollAbort,
    /// See whether something was said to the agent.
    PollSteering,
    /// Ask the language model to go on with the conversation.
    CallModel { history: &'a Vec<Message> },
    /// Wait for the next chunk, or for the user to stop the agent.
    NextChunk,
    /// Run a tool.
    RunTool { call: &'a ToolCallRequest },
    /// Wait for something to be said to the agent, or for the user to stop it.
    AwaitSteering,
    /// Tell a tool that the user consents, and run it.
    ApproveAndRunTool { call: &'a ToolCallRequest },
    /// Nothing: the run is over.
    Stop,
}

/// What the driver of a run is to do next.
pub enum ActionModel {
    PollAbort,
    PollSteering,
    CallModel { history: Seq<MessageModel> },
    NextChunk,
    RunTool { call: ToolCallModel },
    AwaitSteering,
    ApproveAndRunTool { call: ToolCallModel },
    Stop,
}

impl<'a> DeepView for LoopAction<'a> {
    type V = ActionModel;

    open spec fn deep_view(&self) -> ActionModel {
        match *self {
            LoopAction::PollAbort => ActionModel::PollAbort,
            LoopAction::PollSteering => ActionModel::PollSteering,
            LoopAction::CallModel { history } => ActionModel::CallModel { history: history.deep_view() },
            LoopAction::NextChunk => ActionModel::NextChunk,
            LoopAction::RunTool { call } => ActionModel::RunTool { call: call.deep_view() },
            LoopAction::AwaitSteering => ActionModel::AwaitSteering,
            LoopAction::ApproveAndRunTool { call } => ActionModel::ApproveAndRunTool { call: call.deep_view() },
            LoopAction::Stop => ActionModel::Stop,
        }
    }
}

/// What the driver of a run in the state `s` is to do next.
pub open spec fn next_action(s: LoopModel) -> ActionModel {
    match s.phase {
        PhaseModel::CheckingAbort => ActionModel::PollAbort,
        PhaseModel::Draining => ActionModel::PollSteering,
        PhaseModel::CallingModel => ActionModel::CallModel { history: s.history },
        PhaseModel::Streaming(_) => ActionModel::NextChunk,
        PhaseModel::RunningTool { calls, index } => ActionModel::RunTool { call: calls[index] },
        PhaseModel::AwaitingApproval { .. } => ActionModel::AwaitSteering,
        PhaseModel::RunningApproved { calls, index } => ActionModel::ApproveAndRunTool { call: calls[index] },
        PhaseModel::Finished => ActionModel::Stop,
    }
}

/// What a run in the state `s` came to, once it is over.
pub open spec fn came_to(s: LoopModel) -> Option<ResultModel> {
    if s.phase is Finished {
        Some(
            ResultModel {
                messages: s.history,
                total_turns: s.total_turns,
                usage: crate::ai::stream::token_usage(s.input_tokens, s.output_tokens),
            },
        )
    } else {
        None
    }
}

/// A run of the agent.
#[derive(Debug)]
pub struct AgentLoop {
    history: Vec<Message>,
    round: usize,
    max_rounds: usize,
    total_turns: usize,
    total_usage: Usage,
    phase: Phase,
}

impl View for AgentLoop {
    type V = LoopModel;

    closed spec fn view(&self) -> LoopModel {
        LoopModel {
            history: self.history.deep_view(),
            round: self.round as nat,
            max_rounds: self.max_rounds as nat,
            total_turns: self.total_turns as nat,
            input_tokens: self.total_usage.input_tokens as nat,
            output_tokens: self.total_usage.output_tokens as nat,
            phase: self.phase.deep_view(),
        }
    }
}

/// The event of an error after which the run does not go on.
fn fatal_error(message: String) -> (r: AgentEvent)
    ensures
        r.deep_view() == fatal(message@),
{
    AgentEvent::Error { message, recoverable: false }
}

/// What a tool gave back, or an error if there is no such tool.
pub fn execute_tool(name: &str, output: Option<ToolOutput>) -> (r: ToolOutput)
    ensures
        r.deep_view() == tool_output(name@, output.deep_view()),
{
    match output {
        Some(o) => o,
        None => ToolOutput::error("未知工具: ".to_owned().concat(name)),
    }
}

impl AgentLoop {
    /// Whether the run is in a state that it can be in.
    pub closed spec fn wf(self) -> bool {
        &&& self@.valid()
        &&& self.total_usage.deep_view() == crate::ai::stream::token_usage(self@.input_tokens, self@.output_tokens)
    }

    /// Begins a run over `history`.
    pub fn start(history: Vec<Message>, max_rounds: usize) -> (r: (AgentLoop, StepOutput))
        ensures
            r.0.wf(),
            r.0@ == start(history.deep_view(), max_rounds as nat).state,
            r.1.events.deep_view() == start(history.deep_view(), max_rounds as nat).events,
            r.1.reinjected.deep_view() == start(history.deep_view(), max_rounds as nat).reinjected,
            r.0@.history == history.deep_view(),
    {
        let ghost messages = history.deep_view();
        let mut events: Vec<AgentEvent> = Vec::new();
        let mut run = AgentLoop {
            history,
            round: 0,
            max_rounds,
            total_turns: 0,
            total_usage: Usage::default(),
            phase: Phase::CheckingAbort,
        };
        if max_rounds == 0 {
            run.finish(&mut events);
        }
        assert(events.deep_view() =~= start(messages, max_rounds as nat).events);
        let reinjected: Vec<Message> = Vec::new();
        assert(reinjected.deep_view() =~= Seq::<MessageModel>::empty());
        (run, StepOutput { events, reinjected })
    }

    /// The conversation.
    pub fn history(&self) -> (r: &Vec<Message>)
        ensures
            r.deep_view() == self@.history,
    {
        &self.history
    }

    /// The conversation.
    pub fn into_history(self) -> (r: Vec<Message>)
        ensures
            r.deep_view() == self@.history,
    {
        self.history
    }

    /// What the run came to, once it is over.
    pub fn result(&self) -> (r: Option<AgentResult>)
        requires
            self.wf(),
        ensures
            r.deep_view() == if self@.phase is Finished {
                Some(
                    ResultModel {
                        messages: self@.history,
                        total_turns: self@.total_turns,
                        usage: crate::ai::stream::token_usage(self@.input_tokens, self@.output_tokens),
                    },
                )
            } else {
                None
            },
            r.deep_view() == came_to(self@),
    {
        match self.phase {
            Phase::Finished => Some(
                AgentResult {
                    messages: copy_messages(&self.history),
                    total_turns: self.total_turns,
                    usage: self.total_usage.clone(),
                },
            ),
            _ => None,
        }
    }

    /// What is to be done next.
    pub fn action(&self) -> (r: LoopAction<'_>)
        requires
            self.wf(),
        ensures
            r.deep_view() == next_action(self@),
    {
        match &self.phase {
            Phase::CheckingAbort => LoopAction::PollAbort,
            Phase::Draining => LoopAction::PollSteering,
            Phase::CallingModel => LoopAction::CallModel { history: &self.history },
            Phase::Streaming(_) => LoopAction::NextChunk,
            Phase::RunningTool { calls, index } => LoopAction::RunTool { call: &calls[*index] },
            Phase::AwaitingApproval { .. } => LoopAction::AwaitSteering,
            Phase::RunningApproved { calls, index } => LoopAction::ApproveAndRunTool { call: &calls[*index] },
            Phase::Finished => LoopAction::Stop,
        }
    }

    /// Whether the tokens of the run can still be counted after a step.
    pub fn can_count(&self, input: &LoopInput) -> (r: bool)
        ensures
            r == countable(self@, input.deep_view()),
    {
        let ends = match input {
            LoopInput::StreamClosed => true,
            LoopInput::StreamFailed(_) => true,
            LoopInput::Aborted => true,
            _ => false,
        };
        match &self.phase {
            Phase::Streaming(p) => !ends || (p.usage.input_tokens <= u64::MAX - self.total_usage.input_tokens
                && p.usage.output_tokens <= u64::MAX - self.total_usage.output_tokens),
            _ => true,
        }
    }

    /// Ends the run.
    fn finish(&mut self, events: &mut Vec<AgentEvent>)
        requires
            old(self)@.total_turns <= old(self)@.max_rounds,
        ensures
            final(self)@ == finished(old(self)@, old(events).deep_view()).state,
            final(events).deep_view() == finished(old(self)@, old(events).deep_view()).events,
            final(self).total_usage == old(self).total_usage,
    {
        let ghost before = events.deep_view();
        events.push(AgentEvent::Done { messages: copy_messages(&self.history) });
        self.phase = Phase::Finished;
        assert(events.deep_view() =~= finished(self@, before).events);
    }

    /// Adds what the assistant said to the conversation.
    fn push_assistant_text(&mut self, content: &str)
        ensures
            final(self)@ == (LoopModel { history: with_text(old(self)@.history, content@), ..old(self)@ }),
            final(self).total_usage == old(self).total_usage,
            final(self).phase == old(self).phase,
    {
        if !content.is_empty() {
            let ghost before = self.history.deep_view();
            self.history.push(Message::assistant(content));
            assert(self.history.deep_view() =~= with_text(before, content@));
        }
    }

    /// Ends a round of tool calls.
    fn end_round(&mut self, events: &mut Vec<AgentEvent>)
        requires
            old(self)@.total_turns <= old(self)@.round < old(self)@.max_rounds,
        ensures
            final(self)@ == next_round(old(self)@, old(events).deep_view()).state,
            final(events).deep_view() == next_round(old(self)@, old(events).deep_view()).events,
            final(self).total_usage == old(self).total_usage,
    {
        let ghost before = events.deep_view();
        self.total_turns = self.total_turns + 1;
        if self.round + 1 >= self.max_rounds {
            let mut message = "Maximum tool rounds exceeded (".to_owned();
            message.append(text::decimal_of(self.max_rounds as u64).as_str());
            message.append(")");
            events.push(fatal_error(message));
            assert(events.deep_view() =~= before.push(fatal(message@)));
            self.finish(events);
        } else {
            self.round = self.round + 1;
            self.phase = Phase::CheckingAbort;
        }
    }

    /// Begins the tool call `index`, or ends the round if there is none.
    fn begin_call(&mut self, calls: Vec<ToolCallRequest>, index: usize, events: &mut Vec<AgentEvent>)
        requires
            old(self)@.total_turns <= old(self)@.round < old(self)@.max_rounds,
        ensures
            final(self)@ == next_call(old(self)@, calls.deep_view(), index as int, old(events).deep_view()).state,
            final(events).deep_view() == next_call(
                old(self)@,
                calls.deep_view(),
                index as int,
                old(events).deep_view(),
            ).events,
            final(self).total_usage == old(self).total_usage,
    {
        let ghost before = events.deep_view();
        if index < calls.len() {
            let call = &calls[index];
            events.push(
                AgentEvent::ToolRequest { id: call.id.clone(), name: call.name.clone(), input: call.input.clone() },
            );
            assert(events.deep_view() =~= before.push(tool_request(calls.deep_view()[index as int])));
            self.phase = Phase::RunningTool { calls, index };
        } else {
            self.end_round(events);
        }
    }

    /// Answers the tool call `index`.
    fn answer_call(
        &mut self,
        calls: Vec<ToolCallRequest>,
        index: usize,
        content: String,
        is_error: bool,
        events: &mut Vec<AgentEvent>,
    )
        requires
            index < calls.len(),
            old(self)@.total_turns <= old(self)@.round < old(self)@.max_rounds,
            old(events)@.len() == 0,
        ensures
            final(self)@ == call_answered(old(self)@, calls.deep_view(), index as int, content@, is_error).state,
            final(events).deep_view() == call_answered(
                old(self)@,
                calls.deep_view(),
                index as int,
                content@,
                is_error,
            ).events,
            final(self).total_usage == old(self).total_usage,
    {
        let ghost before = self.history.deep_view();
        let id = calls[index].id.clone();
        self.history.push(Message::tool_result(id.as_str(), content.as_str()));
        assert(self.history.deep_view() =~= before.push(
            MessageModel::Tool { content: content@, tool_call_id: id@ },
        ));
        events.push(AgentEvent::ToolResponse { id, content, is_error });
        assert(events.deep_view() =~= seq![EventModel::ToolResponse { id: id@, content: content@, is_error }]);
        self.begin_call(calls, index + 1, events);
    }

    /// Takes up what the reply came to.
    fn dispatch(&mut self, outcome: StreamOutcome, events: &mut Vec<AgentEvent>)
        requires
            old(self)@.total_turns <= old(self)@.round < old(self)@.max_rounds,
            old(self).total_usage.deep_view() == crate::ai::stream::token_usage(
                old(self)@.input_tokens,
                old(self)@.output_tokens,
            ),
            old(self)@.input_tokens + outcome.deep_view().usage().input_tokens <= u64::MAX,
            old(self)@.output_tokens + outcome.deep_view().usage().output_tokens <= u64::MAX,
            old(events)@.len() == 0,
        ensures
            final(self)@ == replied(old(self)@, outcome.deep_view()).state,
            final(events).deep_view() == replied(old(self)@, outcome.deep_view()).events,
            final(self).total_usage.deep_view() == crate::ai::stream::token_usage(
                final(self)@.input_tokens,
                final(self)@.output_tokens,
            ),
    {
        let usage = outcome.usage();
        self.total_usage.input_tokens = self.total_usage.input_tokens + usage.input_tokens;
        self.total_usage.output_tokens = self.total_usage.output_tokens + usage.output_tokens;
        assert(events.deep_view() =~= Seq::<EventModel>::empty());
        match outcome {
            StreamOutcome::EndTurn { content, .. } => {
                self.end_turn(content, events);
            },
            StreamOutcome::MaxTokens { content, .. } => {
                self.end_turn(content, events);
            },
            StreamOutcome::ToolUse { content, tool_calls, .. } => {
                let ghost before = self.history.deep_view();
                let calls = copy_calls(&tool_calls);
                self.history.push(Message::Assistant { content, tool_calls: Some(tool_calls) });
                assert(self.history.deep_view() =~= before.push(
                    MessageModel::Assistant { content: content@, tool_calls: Some(tool_calls.deep_view()) },
                ));
                self.begin_call(calls, 0, events);
            },
            StreamOutcome::StreamError { content, error_message, .. } => {
                self.push_assistant_text(content.as_str());
                events.push(fatal_error(error_message));
                assert(events.deep_view() =~= seq![fatal(error_message@)]);
                self.finish(events);
            },
        }
    }

    /// Ends the run with the language model's turn.
    fn end_turn(&mut self, content: String, events: &mut Vec<AgentEvent>)
        requires
            old(self)@.total_turns <= old(self)@.round < old(self)@.max_rounds,
            old(self).total_usage.deep_view() == crate::ai::stream::token_usage(
                old(self)@.input_tokens,
                old(self)@.output_tokens,
            ),
            old(events)@.len() == 0,
        ensures
            final(self)@ == turn_ended(old(self)@, content@).state,
            final(events).deep_view() == turn_ended(old(self)@, content@).events,
            final(self).total_usage == old(self).total_usage,
    {
        self.push_assistant_text(content.as_str());
        let usage = self.total_usage.clone();
        events.push(AgentEvent::TurnEnd { usage });
        assert(events.deep_view() =~= seq![EventModel::TurnEnd { usage: self.total_usage.deep_view() }]);
        self.total_turns = self.total_turns + 1;
        self.finish(events);
    }

    /// Answers the tool calls from `index` on, which cannot run.
    fn abandon_calls(&mut self, calls: &Vec<ToolCallRequest>, index: usize)
        requires
            index < calls.len(),
        ensures
            final(self)@ == (LoopModel {
                history: old(self)@.history + abandoned(calls.deep_view(), index as int),
                ..old(self)@
            }),
            final(self).total_usage == old(self).total_usage,
    {
        let ghost before = self.history.deep_view();
        let ghost start = *self;
        let ghost answers = abandoned(calls.deep_view(), index as int);
        let mut i: usize = index;
        assert(before + answers.take(0) =~= before);
        while i < calls.len()
            invariant
                index <= i <= calls.len(),
                answers == abandoned(calls.deep_view(), index as int),
                self.history.deep_view() == before + answers.take(i - index),
                self.round == start.round,
                self.max_rounds == start.max_rounds,
                self.total_turns == start.total_turns,
                self.total_usage == start.total_usage,
                self.phase == start.phase,
            decreases calls.len() - i,
        {
            let ghost now = self.history.deep_view();
            self.history.push(
                Message::tool_result(
                    calls[i].id.as_str(),
                    "Aborted: agent was stopped before this tool could complete",
                ),
            );
            assert(self.history.deep_view() =~= now.push(answers[i - index]));
            assert(self.history.deep_view() =~= before + answers.take(i + 1 - index));
            i = i + 1;
        }
        assert(answers.take(calls.len() - index) =~= answers);
    }

    /// Ends the wait for the user's consent.
    fn decide(
        &mut self,
        calls: Vec<ToolCallRequest>,
        index: usize,
        action: ApprovalAction,
        events: &mut Vec<AgentEvent>,
    )
        requires
            index < calls.len(),
            old(self)@.total_turns <= old(self)@.round < old(self)@.max_rounds,
            old(events)@.len() == 0,
        ensures
            final(self)@ == decided(
                old(self)@,
                calls.deep_view(),
                index as int,
                Seq::empty(),
                action.deep_view(),
            ).state,
            final(events).deep_view() == decided(
                old(self)@,
                calls.deep_view(),
                index as int,
                Seq::empty(),
                action.deep_view(),
            ).events,
            final(self).total_usage == old(self).total_usage,
    {
        match action {
            ApprovalAction::Approved => {
                self.phase = Phase::RunningApproved { calls, index };
                assert(events.deep_view() =~= Seq::<EventModel>::empty());
            },
            ApprovalAction::Denied { reason } => {
                let message = if reason.as_str().is_empty() {
                    "用户拒绝了此操作".to_owned()
                } else {
                    "用户拒绝了此操作: ".to_owned().concat(reason.as_str())
                };
                self.answer_call(calls, index, message, true, events);
            },
            ApprovalAction::Aborted => {
                events.push(fatal_error("Agent aborted while waiting for approval".to_owned()));
                assert(events.deep_view() =~= seq![fatal("Agent aborted while waiting for approval"@)]);
                self.abandon_calls(&calls, index);
                self.finish(events);
            },
        }
    }

    /// Takes up a report.
    pub fn step(&mut self, input: LoopInput) -> (r: StepOutput)
        requires
            old(self).wf(),
            countable(old(self)@, input.deep_view()),
        ensures
            final(self).wf(),
            final(self)@ == step(old(self)@, input.deep_view()).state,
            r.events.deep_view() == step(old(self)@, input.deep_view()).events,
            r.reinjected.deep_view() == step(old(self)@, input.deep_view()).reinjected,
    {
        let ghost before = self@;
        let ghost report = input.deep_view();
        let mut events: Vec<AgentEvent> = Vec::new();
        let mut reinjected: Vec<Message> = Vec::new();
        assert(events.deep_view() =~= Seq::<EventModel>::empty());
        assert(reinjected.deep_view() =~= Seq::<MessageModel>::empty());
        let mut phase = Phase::Finished;
        std::mem::swap(&mut phase, &mut self.phase);
        match phase {
            Phase::CheckingAbort => match input {
                LoopInput::Aborted => {
                    events.push(fatal_error("Agent aborted by user".to_owned()));
                    assert(events.deep_view() =~= seq![fatal("Agent aborted by user"@)]);
                    self.finish(&mut events);
                },
                LoopInput::NotAborted => {
                    self.phase = Phase::Draining;
                },
                _ => {
                    self.phase = Phase::CheckingAbort;
                },
            },
            Phase::Draining => match input {
                LoopInput::Steering(SteeringMessage::InjectMessage(m)) => {
                    self.history.push(m);
                    assert(self.history.deep_view() =~= before.history.push(m.deep_view()));
                    self.phase = Phase::Draining;
                },
                LoopInput::SteeringEmpty | LoopInput::SteeringClosed => {
                    self.phase = Phase::CallingModel;
                },
                _ => {
                    self.phase = Phase::Draining;
                },
            },
            Phase::CallingModel => match input {
                LoopInput::ModelOpened => {
                    self.phase = Phase::Streaming(StreamProgress::new());
                },
                LoopInput::ModelRefused(e) => {
                    let message = "Provider error: ".to_owned().concat(e.as_str());
                    events.push(fatal_error(message));
                    assert(events.deep_view() =~= seq![fatal(message@)]);
                    self.finish(&mut events);
                },
                _ => {
                    self.phase = Phase::CallingModel;
                },
            },
            Phase::Streaming(mut progress) => match input {
                LoopInput::Chunk(c) => {
                    events = progress.read(c);
                    self.phase = Phase::Streaming(progress);
                },
                LoopInput::StreamClosed => {
                    self.dispatch(progress.outcome(StreamEnd::Closed), &mut events);
                },
                LoopInput::StreamFailed(e) => {
                    self.dispatch(progress.outcome(StreamEnd::Failed(e)), &mut events);
                },
                LoopInput::Aborted => {
                    self.dispatch(progress.outcome(StreamEnd::Aborted), &mut events);
                },
                _ => {
                    self.phase = Phase::Streaming(progress);
                },
            },
            Phase::RunningTool { calls, index } => match input {
                LoopInput::ToolFinished(output) => {
                    let output = execute_tool(calls[index].name.as_str(), output);
                    if output.needs_approval {
                        let path = match output.approval_path {
                            Some(p) => p,
                            None => String::new(),
                        };
                        events.push(
                            AgentEvent::ApprovalRequired {
                                tool_call_id: calls[index].id.clone(),
                                tool_name: calls[index].name.clone(),
                                path,
                                message: output.content,
                            },
                        );
                        assert(events.deep_view() =~= step(before, report).events);
                        self.phase = Phase::AwaitingApproval { calls, index, injected: Vec::new() };
                        assert(self.phase.deep_view()->injected =~= Seq::<MessageModel>::empty());
                    } else {
                        self.answer_call(calls, index, output.content, output.is_error, &mut events);
                    }
                },
                _ => {
                    self.phase = Phase::RunningTool { calls, index };
                },
            },
            Phase::AwaitingApproval { calls, index, mut injected } => match input {
                LoopInput::Steering(msg) => {
                    match wait_for_approval(calls[index].id.as_str(), msg, &mut injected) {
                        Some(action) => {
                            self.decide(calls, index, action, &mut events);
                            reinjected = injected;
                        },
                        None => {
                            self.phase = Phase::AwaitingApproval { calls, index, injected };
                        },
                    }
                },
                LoopInput::SteeringClosed => {
                    self.decide(calls, index, ApprovalAction::Aborted, &mut events);
                    reinjected = injected;
                },
                LoopInput::Aborted => {
                    self.decide(calls, index, ApprovalAction::Aborted, &mut events);
                    reinjected = injected;
                },
                _ => {
                    self.phase = Phase::AwaitingApproval { calls, index, injected };
                },
            },
            Phase::RunningApproved { calls, index } => match input {
                LoopInput::ToolFinished(output) => {
                    let output = execute_tool(calls[index].name.as_str(), output);
                    self.answer_call(calls, index, output.content, output.is_error, &mut events);
                },
                _ => {
                    self.phase = Phase::RunningApproved { calls, index };
                },
            },
            Phase::Finished => {},
        }
        StepOutput { events, reinjected }
    }
}

} // verus!
