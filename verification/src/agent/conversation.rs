//! What the language model is asked with, and what the user is told: how the
//! reports to a run become the conversation and the events.

use vstd::prelude::*;
use crate::agent::agent_loop::{ActionModel, InputModel, LoopModel, PhaseModel};
use crate::agent::event::EventModel;
use crate::agent::handle::{DecisionModel, SteeringModel};
use crate::ai::message::{MessageModel, ToolCallModel};
use crate::tool::output::ToolOutputModel;

verus! {

// ---------------------------------------------------------------------------
// One tool call
// ---------------------------------------------------------------------------

/// What a tool gives back reaches the language model as it is: it joins the
/// conversation under the id of its call, and the user is told the same text.
pub proof fn lemma_tool_result_joins_the_conversation(
    s: LoopModel,
    calls: Seq<ToolCallModel>,
    index: int,
    o: ToolOutputModel,
)
    requires
        s.phase == (PhaseModel::RunningTool { calls, index }) && !o.needs_approval || s.phase
            == (PhaseModel::RunningApproved { calls, index }),
    ensures
        ({
            let next = crate::agent::agent_loop::step(s, InputModel::ToolFinished(Some(o)));
            &&& next.state.history == s.history.push(
                MessageModel::Tool { content: o.content, tool_call_id: calls[index].id },
            )
            &&& next.events.len() > 0
            &&& next.events[0] == (EventModel::ToolResponse {
                id: calls[index].id,
                content: o.content,
                is_error: o.is_error,
            })
            &&& next.reinjected.len() == 0
        }),
{
}

/// A call of a tool that there is not is answered with an error that names it.
pub proof fn lemma_unknown_tool_is_named(s: LoopModel, calls: Seq<ToolCallModel>, index: int)
    requires
        s.phase == (PhaseModel::RunningTool { calls, index }) || s.phase == (PhaseModel::RunningApproved {
            calls,
            index,
        }),
    ensures
        ({
            let next = crate::agent::agent_loop::step(s, InputModel::ToolFinished(None));
            let content = "未知工具: "@ + calls[index].name;
            &&& next.state.history == s.history.push(
                MessageModel::Tool { content, tool_call_id: calls[index].id },
            )
            &&& next.events.len() > 0
            &&& next.events[0] == (EventModel::ToolResponse { id: calls[index].id, content, is_error: true })
        }),
{
}

/// A tool that asks for consent changes nothing: the conversation stays as it is, and
/// the user is asked about that call, with what the tool says and the path that it
/// names.
pub proof fn lemma_consent_is_asked_for(s: LoopModel, calls: Seq<ToolCallModel>, index: int, o: ToolOutputModel)
    requires
        s.phase == (PhaseModel::RunningTool { calls, index }),
        o.needs_approval,
    ensures
        ({
            let next = crate::agent::agent_loop::step(s, InputModel::ToolFinished(Some(o)));
            &&& next.state == (LoopModel {
                phase: PhaseModel::AwaitingApproval { calls, index, injected: Seq::empty() },
                ..s
            })
            &&& next.events.len() == 1
            &&& next.events[0] matches EventModel::ApprovalRequired { tool_call_id, tool_name, path, message }
            &&& tool_call_id == calls[index].id
            &&& tool_name == calls[index].name
            &&& message == o.content
            &&& o.approval_path is Some ==> path == o.approval_path->0
            &&& o.approval_path is None ==> path.len() == 0
            &&& crate::agent::agent_loop::next_action(next.state) is AwaitSteering
        }),
{
}

/// With the user's consent the very call that asked for it runs again.
pub proof fn lemma_consent_runs_the_call(
    s: LoopModel,
    calls: Seq<ToolCallModel>,
    index: int,
    injected: Seq<MessageModel>,
)
    requires
        s.phase == (PhaseModel::AwaitingApproval { calls, index, injected }),
    ensures
        ({
            let said = SteeringModel::ApprovalResponse {
                tool_call_id: calls[index].id,
                decision: DecisionModel::Approved,
            };
            let next = crate::agent::agent_loop::step(s, InputModel::Steering(said));
            &&& crate::agent::agent_loop::next_action(next.state) == (ActionModel::ApproveAndRunTool {
                call: calls[index],
            })
            &&& next.state == (LoopModel { phase: PhaseModel::RunningApproved { calls, index }, ..s })
            &&& next.events.len() == 0
            &&& next.reinjected == injected
        }),
{
}

/// A call that the user refuses does not run: the language model and the user are
/// told of the refusal, with the reason if there is one, and the run goes on behind
/// the call.
pub proof fn lemma_refusal_reaches_the_model(
    s: LoopModel,
    calls: Seq<ToolCallModel>,
    index: int,
    injected: Seq<MessageModel>,
    reason: Seq<char>,
)
    requires
        s.phase == (PhaseModel::AwaitingApproval { calls, index, injected }),
    ensures
        ({
            let said = SteeringModel::ApprovalResponse {
                tool_call_id: calls[index].id,
                decision: DecisionModel::Denied { reason },
            };
            let next = crate::agent::agent_loop::step(s, InputModel::Steering(said));
            let content = if reason.len() == 0 {
                "用户拒绝了此操作"@
            } else {
                "用户拒绝了此操作: "@ + reason
            };
            &&& next.state.history == s.history.push(
                MessageModel::Tool { content, tool_call_id: calls[index].id },
            )
            &&& next.events.len() > 0
            &&& next.events[0] == (EventModel::ToolResponse { id: calls[index].id, content, is_error: true })
            &&& next.reinjected == injected
        }),
{
}

/// An answer to another call than the one that waits is no answer to it, and a
/// message for the conversation is kept for later.
pub proof fn lemma_other_answers_do_not_count(
    s: LoopModel,
    calls: Seq<ToolCallModel>,
    index: int,
    injected: Seq<MessageModel>,
    id: Seq<char>,
    decision: DecisionModel,
    m: MessageModel,
)
    requires
        s.phase == (PhaseModel::AwaitingApproval { calls, index, injected }),
        id != calls[index].id,
    ensures
        ({
            let said = SteeringModel::ApprovalResponse { tool_call_id: id, decision };
            let next = crate::agent::agent_loop::step(s, InputModel::Steering(said));
            next.state == s && next.events.len() == 0 && next.reinjected.len() == 0
        }),
        ({
            let next = crate::agent::agent_loop::step(s, InputModel::Steering(SteeringModel::InjectMessage(m)));
            &&& next.state == (LoopModel {
                phase: PhaseModel::AwaitingApproval { calls, index, injected: injected.push(m) },
                ..s
            })
            &&& next.events.len() == 0
            &&& next.reinjected.len() == 0
        }),
{
}

/// When the user stops the agent, or nobody can answer any more, while a call waits
/// for consent, that call and those behind it are answered with the remark that they
/// could not run, and the run is over.
pub proof fn lemma_stop_answers_the_calls_left(
    s: LoopModel,
    calls: Seq<ToolCallModel>,
    index: int,
    injected: Seq<MessageModel>,
    end: InputModel,
    k: int,
)
    requires
        s.phase == (PhaseModel::AwaitingApproval { calls, index, injected }),
        0 <= index < calls.len(),
        end is Aborted || end is SteeringClosed,
        0 <= k < calls.len() - index,
    ensures
        ({
            let next = crate::agent::agent_loop::step(s, end);
            let h = next.state.history;
            &&& h.len() == s.history.len() + calls.len() - index
            &&& s.history.is_prefix_of(h)
            &&& h[s.history.len() + k] == (MessageModel::Tool {
                content: "Aborted: agent was stopped before this tool could complete"@,
                tool_call_id: calls[index + k].id,
            })
            &&& next.events == seq![
                EventModel::Error { message: "Agent aborted while waiting for approval"@, recoverable: false },
                EventModel::Done { messages: h },
            ]
            &&& next.reinjected == injected
            &&& crate::agent::agent_loop::next_action(next.state) is Stop
        }),
{
    let next = crate::agent::agent_loop::step(s, end);
    assert(s.history =~= next.state.history.subrange(0, s.history.len() as int));
    assert(next.events =~= seq![
        EventModel::Error { message: "Agent aborted while waiting for approval"@, recoverable: false },
        EventModel::Done { messages: next.state.history },
    ]);
}

/// Whether a report answers the call that a run deals with: the tool gave something back that
/// needs no consent, or the user refused the call.
pub open spec fn is_answer(s: LoopModel, calls: Seq<ToolCallModel>, index: int, i: InputModel) -> bool {
    match s.phase {
        PhaseModel::RunningTool { calls: c, index: n } => c == calls && n == index && match i {
            InputModel::ToolFinished(Some(o)) => !o.needs_approval,
            InputModel::ToolFinished(None) => true,
            _ => false,
        },
        PhaseModel::RunningApproved { calls: c, index: n } => c == calls && n == index && i is ToolFinished,
        PhaseModel::AwaitingApproval { calls: c, index: n, .. } => c == calls && n == index && match i {
            InputModel::Steering(SteeringModel::ApprovalResponse { tool_call_id, decision }) => tool_call_id
                == calls[index].id && decision is Denied,
            _ => false,
        },
        _ => false,
    }
}

/// The calls of a reply run one after the other, however each is answered: after an answer
/// the next call is announced and run; behind the last one a new round begins, and if no
/// round is left the run is over and the user is told why.
pub proof fn lemma_next_call_runs(s: LoopModel, calls: Seq<ToolCallModel>, index: int, i: InputModel)
    requires
        is_answer(s, calls, index, i),
        0 <= index < calls.len(),
    ensures
        ({
            let next = crate::agent::agent_loop::step(s, i);
            &&& (next.state.input_tokens, next.state.output_tokens, next.state.max_rounds) == (
                s.input_tokens,
                s.output_tokens,
                s.max_rounds,
            )
            &&& if index + 1 < calls.len() {
                let call = calls[index + 1];
                &&& crate::agent::agent_loop::next_action(next.state) == (ActionModel::RunTool { call })
                &&& next.state.phase == (PhaseModel::RunningTool { calls, index: index + 1 })
                &&& next.events.len() == 2
                &&& next.events[1] == (EventModel::ToolRequest { id: call.id, name: call.name, input: call.input })
                &&& (next.state.round, next.state.total_turns) == (s.round, s.total_turns)
            } else if s.round + 1 < s.max_rounds {
                &&& crate::agent::agent_loop::next_action(next.state) is PollAbort
                &&& next.events.len() == 1
                &&& next.state.round == s.round + 1
                &&& next.state.total_turns == s.total_turns + 1
            } else {
                &&& crate::agent::agent_loop::next_action(next.state) is Stop
                &&& next.events.len() == 3
                &&& next.events[1] == (EventModel::Error {
                    message: "Maximum tool rounds exceeded ("@ + crate::text::decimal(s.max_rounds) + ")"@,
                    recoverable: false,
                })
                &&& next.events[2] == (EventModel::Done { messages: next.state.history })
                &&& next.state.total_turns == s.total_turns + 1
            }
        }),
{
}

// ---------------------------------------------------------------------------
// All tool calls of a run
// ---------------------------------------------------------------------------

/// The ids and texts of the tools' answers in a conversation.
pub open spec fn answers_in(h: Seq<MessageModel>) -> Seq<(Seq<char>, Seq<char>)>
    decreases h.len(),
{
    if h.len() == 0 {
        Seq::empty()
    } else {
        match h.last() {
            MessageModel::Tool { content, tool_call_id } => answers_in(h.drop_last()).push((tool_call_id, content)),
            _ => answers_in(h.drop_last()),
        }
    }
}

/// The ids and texts of the tools' answers that the user was told.
pub open spec fn answers_told(events: Seq<EventModel>) -> Seq<(Seq<char>, Seq<char>)>
    decreases events.len(),
{
    if events.len() == 0 {
        Seq::empty()
    } else {
        match events.last() {
            EventModel::ToolResponse { id, content, .. } => answers_told(events.drop_last()).push((id, content)),
            _ => answers_told(events.drop_last()),
        }
    }
}

/// Whether nobody says to the agent what a tool would answer.
pub open spec fn injects_no_answer(i: InputModel) -> bool {
    i matches InputModel::Steering(SteeringModel::InjectMessage(m)) ==> m !is Tool
}

proof fn lemma_answers_in_both(a: Seq<MessageModel>, b: Seq<MessageModel>)
    ensures
        answers_in(a + b) == answers_in(a) + answers_in(b),
    decreases b.len(),
{
    if b.len() == 0 {
        assert(a + b =~= a);
        assert(answers_in(a) + answers_in(b) =~= answers_in(a));
    } else {
        lemma_answers_in_both(a, b.drop_last());
        assert((a + b).drop_last() =~= a + b.drop_last());
        assert(answers_in(a + b) =~= answers_in(a) + answers_in(b));
    }
}

proof fn lemma_answers_told_in_both(a: Seq<EventModel>, b: Seq<EventModel>)
    ensures
        answers_told(a + b) == answers_told(a) + answers_told(b),
    decreases b.len(),
{
    if b.len() == 0 {
        assert(a + b =~= a);
        assert(answers_told(a) + answers_told(b) =~= answers_told(a));
    } else {
        lemma_answers_told_in_both(a, b.drop_last());
        assert((a + b).drop_last() =~= a + b.drop_last());
        assert(answers_told(a + b) =~= answers_told(a) + answers_told(b));
    }
}

/// The remark that a call could not run.
pub open spec fn could_not_run() -> Seq<char> {
    "Aborted: agent was stopped before this tool could complete"@
}

/// Whether `known` are the answers that were told, followed by such as remark that
/// their call could not run.
pub open spec fn told_first(known: Seq<(Seq<char>, Seq<char>)>, told: Seq<(Seq<char>, Seq<char>)>) -> bool {
    &&& told.is_prefix_of(known)
    &&& forall|k: int| told.len() <= k < known.len() ==> (#[trigger] known[k]).1 == could_not_run()
}

proof fn lemma_unfold_told(events: Seq<EventModel>)
    ensures
        events.len() == 1 ==> answers_told(events) == match events[0] {
            EventModel::ToolResponse { id, content, .. } => seq![(id, content)],
            _ => Seq::empty(),
        },
        events.len() == 2 ==> answers_told(events) == answers_told(seq![events[0]]) + answers_told(seq![events[1]]),
        events.len() == 3 ==> answers_told(events) == answers_told(seq![events[0]]) + answers_told(seq![events[1]])
            + answers_told(seq![events[2]]),
{
    reveal_with_fuel(answers_told, 2);
    if events.len() == 1 {
        assert(answers_told(events) =~= match events[0] {
            EventModel::ToolResponse { id, content, .. } => seq![(id, content)],
            _ => Seq::empty(),
        });
    } else if events.len() == 2 {
        assert(events =~= seq![events[0]] + seq![events[1]]);
        lemma_answers_told_in_both(seq![events[0]], seq![events[1]]);
    } else if events.len() == 3 {
        assert(events =~= seq![events[0]] + seq![events[1]] + seq![events[2]]);
        lemma_answers_told_in_both(seq![events[0]], seq![events[1]]);
        lemma_answers_told_in_both(seq![events[0]] + seq![events[1]], seq![events[2]]);
    }
}

proof fn lemma_all_could_not_run(h: Seq<MessageModel>)
    requires
        forall|i: int| 0 <= i < h.len() ==> (#[trigger] h[i]) is Tool && h[i]->Tool_content == could_not_run(),
    ensures
        forall|k: int| 0 <= k < answers_in(h).len() ==> (#[trigger] answers_in(h)[k]).1 == could_not_run(),
    decreases h.len(),
{
    if h.len() > 0 {
        let before = h.drop_last();
        assert forall|i: int| 0 <= i < before.len() implies (#[trigger] before[i]) is Tool && before[i]->Tool_content
            == could_not_run() by {
            assert(before[i] == h[i]);
        }
        lemma_all_could_not_run(before);
        assert(h[h.len() - 1] is Tool);
        let known = answers_in(h);
        assert(known == answers_in(before).push((h.last()->tool_call_id, h.last()->Tool_content)));
        assert forall|k: int| 0 <= k < known.len() implies (#[trigger] known[k]).1 == could_not_run() by {
            if k < known.len() - 1 {
                assert(known[k] == answers_in(before)[k]);
            }
        }
    }
}

/// What a step adds to the conversation and tells: the same answers, but for those
/// of the calls that could not run when it ends the run.
proof fn lemma_step_tells_its_answers(s: LoopModel, i: InputModel)
    requires
        s.valid(),
        injects_no_answer(i),
    ensures
        ({
            let next = crate::agent::agent_loop::step(s, i);
            let added = next.state.history.skip(s.history.len() as int);
            &&& next.state.history == s.history + added
            &&& if next.state.phase is Finished && s.phase is AwaitingApproval && (i is Aborted || i is SteeringClosed) {
                told_first(answers_in(added), answers_told(next.events))
            } else {
                answers_in(added) == answers_told(next.events)
            }
        }),
{
    let next = crate::agent::agent_loop::step(s, i);
    let added = next.state.history.skip(s.history.len() as int);
    let none = Seq::<MessageModel>::empty();
    assert(next.state.history =~= s.history + added);
    lemma_unfold_told(next.events);
    if next.events.len() >= 1 {
        lemma_unfold_told(seq![next.events[0]]);
    }
    if next.events.len() >= 2 {
        lemma_unfold_told(seq![next.events[1]]);
    }
    if next.events.len() >= 3 {
        lemma_unfold_told(seq![next.events[2]]);
    }
    if added.len() == 1 {
        assert(added.drop_last() =~= none);
        assert(answers_in(none) =~= Seq::empty());
        assert(answers_in(added) =~= match added[0] {
            MessageModel::Tool { content, tool_call_id } => seq![(tool_call_id, content)],
            _ => Seq::empty(),
        });
    }
    match s.phase {
        PhaseModel::AwaitingApproval { calls, index, .. } if i is Aborted || i is SteeringClosed => {
            let left = crate::agent::agent_loop::abandoned(calls, index);
            assert(added =~= left);
            lemma_all_could_not_run(left);
            let known = answers_in(added);
            assert(answers_told(next.events) =~= Seq::empty());
            assert(answers_told(next.events) =~= known.subrange(0, 0));
        },
        _ => {
            assert(added.len() <= 1);
            if added.len() == 0 {
                assert(added =~= none);
            }
            assert(answers_in(added) =~= answers_told(next.events));
        },
    }
}

/// The language model is told what the user is told: in every run the answers of the
/// tools that join the conversation are, one by one, those of the `ToolResponse`
/// events, with the same ids and texts. Only a run that was stopped while a call
/// waited for consent has more of them, each of which says that its call could not
/// run. This supposes that nobody says to the agent what a tool would answer.
pub proof fn lemma_model_is_told_what_the_user_is_told(
    history: Seq<MessageModel>,
    max_rounds: nat,
    inputs: Seq<InputModel>,
)
    requires
        forall|k: int| 0 <= k < inputs.len() ==> injects_no_answer(#[trigger] inputs[k]),
    ensures
        ({
            let r = crate::agent::run::run_of(history, max_rounds, inputs);
            let known = answers_in(r.state.history.skip(history.len() as int));
            &&& history.is_prefix_of(r.state.history)
            &&& told_first(known, answers_told(r.events))
            &&& r.state.phase !is Finished ==> known == answers_told(r.events)
        }),
    decreases inputs.len(),
{
    let r = crate::agent::run::run_of(history, max_rounds, inputs);
    crate::agent::run::lemma_history_grows(history, max_rounds, inputs);
    if inputs.len() == 0 {
        assert(r.state.history.skip(history.len() as int) =~= Seq::empty());
        lemma_unfold_told(r.events);
        let known = answers_in(r.state.history.skip(history.len() as int));
        assert(answers_told(r.events) =~= Seq::empty());
        assert(answers_told(r.events) =~= known.subrange(0, 0));
    } else {
        let earlier = inputs.drop_last();
        assert forall|k: int| 0 <= k < earlier.len() implies injects_no_answer(#[trigger] earlier[k]) by {
            assert(earlier[k] == inputs[k]);
        }
        lemma_model_is_told_what_the_user_is_told(history, max_rounds, earlier);
        crate::agent::run::lemma_rounds_are_limited(history, max_rounds, earlier);
        crate::agent::run::lemma_history_grows(history, max_rounds, earlier);
        let before = crate::agent::run::run_of(history, max_rounds, earlier);
        let last = crate::agent::agent_loop::step(before.state, inputs.last());
        assert(inputs[inputs.len() - 1] == inputs.last());
        lemma_step_tells_its_answers(before.state, inputs.last());
        let old_part = before.state.history.skip(history.len() as int);
        let added = last.state.history.skip(before.state.history.len() as int);
        assert(r.state.history.skip(history.len() as int) =~= old_part + added);
        lemma_answers_in_both(old_part, added);
        lemma_answers_told_in_both(before.events, last.events);
        let known = answers_in(r.state.history.skip(history.len() as int));
        let told = answers_told(r.events);
        if before.state.phase is Finished {
            assert(added =~= Seq::empty());
            assert(last.events =~= Seq::empty());
            assert(known =~= answers_in(old_part));
            assert(told =~= answers_told(before.events));
        } else {
            let (x, y) = (answers_in(added), answers_told(last.events));
            assert(known == answers_told(before.events) + x);
            assert(told == answers_told(before.events) + y);
            assert(y.is_prefix_of(x)) by {
                if x == y {
                    assert(y =~= x.subrange(0, y.len() as int));
                }
            }
            assert(told =~= known.subrange(0, told.len() as int));
            assert forall|k: int| told.len() <= k < known.len() implies (#[trigger] known[k]).1 == could_not_run() by {
                assert(known[k] == x[k - answers_told(before.events).len()]);
            }
        }
    }
}

proof fn lemma_answer_is_known(h: Seq<MessageModel>, i: int)
    requires
        0 <= i < h.len(),
        h[i] is Tool,
    ensures
        answers_in(h).contains((h[i]->tool_call_id, h[i]->Tool_content)),
    decreases h.len(),
{
    let known = answers_in(h);
    let answer = (h[i]->tool_call_id, h[i]->Tool_content);
    if i == h.len() - 1 {
        assert(known[known.len() - 1] == answer);
    } else {
        lemma_answer_is_known(h.drop_last(), i);
        let before = answers_in(h.drop_last());
        let k = choose|k: int| 0 <= k < before.len() && before[k] == answer;
        assert(known[k] == answer);
    }
}

proof fn lemma_told_in_an_event(events: Seq<EventModel>, answer: (Seq<char>, Seq<char>))
    requires
        answers_told(events).contains(answer),
    ensures
        exists|k: int|
            0 <= k < events.len() && (#[trigger] events[k] matches EventModel::ToolResponse { id, content, .. } && (
            id,
            content,
        ) == answer),
    decreases events.len(),
{
    let told = answers_told(events);
    let earlier = events.drop_last();
    let n = choose|n: int| 0 <= n < told.len() && told[n] == answer;
    if events.last() is ToolResponse && n == told.len() - 1 {
        let last = events.len() - 1;
        assert(events[last] is ToolResponse);
    } else {
        assert(answers_told(earlier)[n] == answer);
        lemma_told_in_an_event(earlier, answer);
        let k = choose|k: int|
            0 <= k < earlier.len() && (#[trigger] earlier[k] matches EventModel::ToolResponse { id, content, .. } && (
            id,
            content,
        ) == answer);
        assert(events[k] == earlier[k]);
    }
}

/// Whether an answer is what the user was told under the same id, or the remark that
/// its call could not run.
pub open spec fn answers_as_told(m: MessageModel, call: ToolCallModel, events: Seq<EventModel>) -> bool {
    m matches MessageModel::Tool { content, tool_call_id } && tool_call_id == call.id && (content == could_not_run()
        || exists|k: int|
        0 <= k < events.len() && (#[trigger] events[k] matches EventModel::ToolResponse { id, content: told, .. } && id
            == call.id && told == content))
}

/// No call is without its answer, and no answer is made up: whenever the language model
/// is asked again and when the run is over, the calls of each message that the run
/// added are answered right behind it, in their order, each with the text that the user
/// was told for it, or with the remark that it could not run. This supposes that
/// nobody says to the agent what asks for a tool or what a tool would answer.
pub proof fn lemma_calls_are_answered_as_told(
    history: Seq<MessageModel>,
    max_rounds: nat,
    inputs: Seq<InputModel>,
    i: int,
    calls: Seq<ToolCallModel>,
    k: int,
)
    requires
        forall|j: int|
            0 <= j < inputs.len() ==> crate::agent::run::injects_plain(#[trigger] inputs[j]) && injects_no_answer(
                inputs[j],
            ),
        ({
            let r = crate::agent::run::run_of(history, max_rounds, inputs);
            &&& r.state.phase is CallingModel || r.state.phase is Finished
            &&& history.len() <= i < r.state.history.len()
            &&& r.state.history[i] matches MessageModel::Assistant { tool_calls, .. }
            &&& tool_calls == Some(calls)
        }),
        0 <= k < calls.len(),
    ensures
        ({
            let r = crate::agent::run::run_of(history, max_rounds, inputs);
            &&& i + 1 + k < r.state.history.len()
            &&& answers_as_told(r.state.history[i + 1 + k], calls[k], r.events)
        }),
{
    let r = crate::agent::run::run_of(history, max_rounds, inputs);
    let h = r.state.history;
    crate::agent::run::lemma_tool_calls_are_answered(history, max_rounds, inputs);
    assert(crate::agent::run::is_answered(h, i));
    assert(crate::agent::run::answers(h[i + 1 + k], calls[k]));
    lemma_model_is_told_what_the_user_is_told(history, max_rounds, inputs);
    let added = h.skip(history.len() as int);
    let answer = (h[i + 1 + k]->tool_call_id, h[i + 1 + k]->Tool_content);
    assert(added[i + 1 + k - history.len()] == h[i + 1 + k]);
    lemma_answer_is_known(added, i + 1 + k - history.len());
    let known = answers_in(added);
    let told = answers_told(r.events);
    let n = choose|n: int| 0 <= n < known.len() && known[n] == answer;
    if n < told.len() {
        assert(told[n] == known[n]);
        lemma_told_in_an_event(r.events, answer);
    }
}

} // verus!
