//! What holds of every run, whatever is reported to it.

use vstd::prelude::*;
use crate::agent::agent_loop::{
    InputModel, LoopModel, OutcomeModel, PhaseModel, ProgressModel, StepModel, StreamEndModel,
};
use crate::agent::event::EventModel;
use crate::agent::handle::{DecisionModel, SteeringModel};
use crate::ai::message::{MessageModel, ToolCallModel};
use crate::ai::stream::{ChunkModel, StopReason, UsageModel};

verus! {

/// A run that begins with `begin` and goes on with the reports `inputs`: the
/// state that it comes to, and all that came of its steps.
pub open spec fn run(begin: StepModel, inputs: Seq<InputModel>) -> StepModel
    decreases inputs.len(),
{
    if inputs.len() == 0 {
        begin
    } else {
        let before = run(begin, inputs.drop_last());
        let last = crate::agent::agent_loop::step(before.state, inputs.last());
        StepModel {
            state: last.state,
            events: before.events + last.events,
            reinjected: before.reinjected + last.reinjected,
        }
    }
}

/// A run over a conversation.
pub open spec fn run_of(history: Seq<MessageModel>, max_rounds: nat, inputs: Seq<InputModel>) -> StepModel {
    run(crate::agent::agent_loop::start(history, max_rounds), inputs)
}

// ---------------------------------------------------------------------------
// The end of a run
// ---------------------------------------------------------------------------

/// Whether `Done` is the last event, with the conversation as it stands, and the
/// only one of its kind if the run is over, and is missing if it is not.
pub open spec fn done_is_last(s: StepModel) -> bool {
    if s.state.phase is Finished {
        &&& s.events.len() > 0
        &&& s.events.last() == (EventModel::Done { messages: s.state.history })
        &&& forall|i: int| 0 <= i < s.events.len() - 1 ==> (#[trigger] s.events[i]) !is Done
    } else {
        forall|i: int| 0 <= i < s.events.len() ==> (#[trigger] s.events[i]) !is Done
    }
}

proof fn lemma_step_done(s: LoopModel, i: InputModel)
    requires
        s.phase !is Finished,
    ensures
        done_is_last(crate::agent::agent_loop::step(s, i)),
{
}

/// A run that is over has ended with `Done`, which holds the conversation; no
/// run emits `Done` before or twice.
pub proof fn lemma_done_is_the_last_event(history: Seq<MessageModel>, max_rounds: nat, inputs: Seq<InputModel>)
    ensures
        done_is_last(run_of(history, max_rounds, inputs)),
    decreases inputs.len(),
{
    if inputs.len() > 0 {
        lemma_done_is_the_last_event(history, max_rounds, inputs.drop_last());
        let before = run_of(history, max_rounds, inputs.drop_last());
        let last = crate::agent::agent_loop::step(before.state, inputs.last());
        let after = run_of(history, max_rounds, inputs);
        if before.state.phase is Finished {
            assert(after.events =~= before.events);
        } else {
            lemma_step_done(before.state, inputs.last());
            assert forall|i: int| 0 <= i < after.events.len() - 1 implies (#[trigger] after.events[i]) !is Done by {
                if i < before.events.len() {
                    assert(after.events[i] == before.events[i]);
                } else {
                    assert(after.events[i] == last.events[i - before.events.len()]);
                }
            }
        }
    }
}

/// Once a run is over nothing comes of it any more.
pub proof fn lemma_finished_stays(s: LoopModel, i: InputModel)
    requires
        s.phase is Finished,
    ensures
        crate::agent::agent_loop::step(s, i) == crate::agent::agent_loop::quiet(s),
{
}

/// Whether the language model's turn ends nowhere but directly before `Done`.
pub open spec fn turn_end_is_late(events: Seq<EventModel>) -> bool {
    forall|i: int| 0 <= i < events.len() && (#[trigger] events[i]) is TurnEnd ==> i == events.len() - 2
}

proof fn lemma_step_turn_end(s: LoopModel, i: InputModel)
    ensures
        ({
            let next = crate::agent::agent_loop::step(s, i);
            &&& turn_end_is_late(next.events)
            &&& next.state.phase !is Finished ==> forall|k: int|
                0 <= k < next.events.len() ==> (#[trigger] next.events[k]) !is TurnEnd
        }),
{
}

/// A run tells of the end of the language model's turn once at most, and then
/// directly before `Done`.
pub proof fn lemma_turn_ends_once(history: Seq<MessageModel>, max_rounds: nat, inputs: Seq<InputModel>)
    ensures
        turn_end_is_late(run_of(history, max_rounds, inputs).events),
        run_of(history, max_rounds, inputs).state.phase !is Finished ==> forall|k: int|
            0 <= k < run_of(history, max_rounds, inputs).events.len() ==> (#[trigger] run_of(
                history,
                max_rounds,
                inputs,
            ).events[k]) !is TurnEnd,
    decreases inputs.len(),
{
    if inputs.len() > 0 {
        lemma_turn_ends_once(history, max_rounds, inputs.drop_last());
        let before = run_of(history, max_rounds, inputs.drop_last());
        let last = crate::agent::agent_loop::step(before.state, inputs.last());
        let after = run_of(history, max_rounds, inputs);
        lemma_step_turn_end(before.state, inputs.last());
        if before.state.phase is Finished {
            assert(after.events =~= before.events);
        } else {
            assert forall|k: int| 0 <= k < after.events.len() && (#[trigger] after.events[k]) is TurnEnd implies k
                == after.events.len() - 2 && after.state.phase is Finished by {
                if k < before.events.len() {
                    assert(after.events[k] == before.events[k]);
                } else {
                    assert(after.events[k] == last.events[k - before.events.len()]);
                }
            }
        }
    }
}

// ---------------------------------------------------------------------------
// The rounds of a run
// ---------------------------------------------------------------------------

/// How often the language model was asked.
pub open spec fn asked(begin: StepModel, inputs: Seq<InputModel>) -> nat
    decreases inputs.len(),
{
    if inputs.len() == 0 {
        0
    } else {
        let before = run(begin, inputs.drop_last()).state;
        asked(begin, inputs.drop_last()) + if before.phase is CallingModel && (inputs.last() is ModelOpened
            || inputs.last() is ModelRefused) {
            1nat
        } else {
            0nat
        }
    }
}

/// The language model is asked at most `max_rounds` times, and no run gets into
/// an invalid state.
pub proof fn lemma_rounds_are_limited(history: Seq<MessageModel>, max_rounds: nat, inputs: Seq<InputModel>)
    ensures
        run_of(history, max_rounds, inputs).state.valid(),
        run_of(history, max_rounds, inputs).state.max_rounds == max_rounds,
        asked(crate::agent::agent_loop::start(history, max_rounds), inputs) <= max_rounds,
{
    lemma_rounds(history, max_rounds, inputs);
}

proof fn lemma_rounds(history: Seq<MessageModel>, max_rounds: nat, inputs: Seq<InputModel>)
    ensures
        ({
            let s = run_of(history, max_rounds, inputs).state;
            let n = asked(crate::agent::agent_loop::start(history, max_rounds), inputs);
            &&& s.valid()
            &&& s.max_rounds == max_rounds
            &&& match s.phase {
                PhaseModel::Finished => n <= max_rounds,
                PhaseModel::CheckingAbort => n <= s.round,
                PhaseModel::Draining => n <= s.round,
                PhaseModel::CallingModel => n <= s.round,
                _ => n <= s.round + 1,
            }
        }),
    decreases inputs.len(),
{
    if inputs.len() > 0 {
        lemma_rounds(history, max_rounds, inputs.drop_last());
    }
}

// ---------------------------------------------------------------------------
// The conversation
// ---------------------------------------------------------------------------

/// The conversation only grows.
pub proof fn lemma_history_grows(history: Seq<MessageModel>, max_rounds: nat, inputs: Seq<InputModel>)
    ensures
        history.is_prefix_of(run_of(history, max_rounds, inputs).state.history),
    decreases inputs.len(),
{
    if inputs.len() > 0 {
        lemma_history_grows(history, max_rounds, inputs.drop_last());
        let before = run_of(history, max_rounds, inputs.drop_last()).state;
        lemma_step_grows(before, inputs.last());
        let after = crate::agent::agent_loop::step(before, inputs.last()).state;
        assert(history =~= after.history.subrange(0, history.len() as int));
    }
}

proof fn lemma_step_grows(s: LoopModel, i: InputModel)
    ensures
        s.history.is_prefix_of(crate::agent::agent_loop::step(s, i).state.history),
{
    let after = crate::agent::agent_loop::step(s, i).state.history;
    assert(s.history =~= after.subrange(0, s.history.len() as int));
}

/// Whether message `i` is followed by the answers to the tool calls that it asks
/// for, in their order.
pub open spec fn is_answered(h: Seq<MessageModel>, i: int) -> bool {
    match h[i] {
        MessageModel::Assistant { tool_calls: Some(calls), .. } => {
            &&& i + calls.len() < h.len()
            &&& forall|k: int| 0 <= k < calls.len() ==> answers(h[i + 1 + k], #[trigger] calls[k])
        },
        _ => true,
    }
}

/// Whether a message answers a tool call.
pub open spec fn answers(m: MessageModel, call: ToolCallModel) -> bool {
    m is Tool && m->tool_call_id == call.id
}

/// Whether each tool call of the messages from number `from` on is answered.
pub open spec fn paired(h: Seq<MessageModel>, from: nat) -> bool {
    forall|i: int| from <= i < h.len() ==> #[trigger] is_answered(h, i)
}

/// Whether the conversation ends with a message that asks for `calls`, the first
/// `index` of which are answered, and all tool calls before are, from message `from`
/// on.
pub open spec fn answered_up_to(h: Seq<MessageModel>, from: nat, calls: Seq<ToolCallModel>, index: int) -> bool {
    let n = h.len() - 1 - index;
    &&& 0 <= index <= calls.len()
    &&& from <= n
    &&& h[n] is Assistant && h[n]->tool_calls == Some(calls)
    &&& paired(h.take(n), from)
    &&& forall|k: int| 0 <= k < index ==> answers(h[n + 1 + k], #[trigger] calls[k])
}

/// Whether the tool calls of a run are answered as far as the run has come, from
/// message `from` on.
pub open spec fn answered_so_far(s: LoopModel, from: nat) -> bool {
    match s.phase {
        PhaseModel::RunningTool { calls, index } => answered_up_to(s.history, from, calls, index),
        PhaseModel::AwaitingApproval { calls, index, .. } => answered_up_to(s.history, from, calls, index),
        PhaseModel::RunningApproved { calls, index } => answered_up_to(s.history, from, calls, index),
        _ => paired(s.history, from),
    }
}

/// Whether a message asks for no tool call.
pub open spec fn is_plain(m: MessageModel) -> bool {
    m matches MessageModel::Assistant { tool_calls: Some(calls), .. } ==> calls.len() == 0
}

/// Whether no message that is said to the agent asks for a tool call.
pub open spec fn injects_plain(i: InputModel) -> bool {
    match i {
        InputModel::Steering(SteeringModel::InjectMessage(m)) => is_plain(m),
        _ => true,
    }
}

proof fn lemma_push_plain(h: Seq<MessageModel>, from: nat, m: MessageModel)
    requires
        paired(h, from),
        is_plain(m),
    ensures
        paired(h.push(m), from),
{
    let long = h.push(m);
    assert forall|i: int| from <= i < long.len() implies #[trigger] is_answered(long, i) by {
        if i < h.len() {
            assert(is_answered(h, i));
            assert(long[i] == h[i]);
        }
    }
}

proof fn lemma_push_answer(h: Seq<MessageModel>, from: nat, calls: Seq<ToolCallModel>, index: int, m: MessageModel)
    requires
        answered_up_to(h, from, calls, index),
        index < calls.len(),
        answers(m, calls[index]),
    ensures
        answered_up_to(h.push(m), from, calls, index + 1),
{
    let n = h.len() - 1 - index;
    let long = h.push(m);
    assert(long.take(n) =~= h.take(n));
    assert forall|k: int| 0 <= k < index + 1 implies answers(long[n + 1 + k], #[trigger] calls[k]) by {
        if k < index {
            assert(long[n + 1 + k] == h[n + 1 + k]);
        }
    }
}

proof fn lemma_all_answered(h: Seq<MessageModel>, from: nat, calls: Seq<ToolCallModel>)
    requires
        answered_up_to(h, from, calls, calls.len() as int),
    ensures
        paired(h, from),
{
    let n = h.len() - 1 - calls.len();
    assert forall|i: int| from <= i < h.len() implies #[trigger] is_answered(h, i) by {
        if i < n {
            assert(is_answered(h.take(n), i));
            assert(h.take(n)[i] == h[i]);
        } else if i > n {
            assert(answers(h[n + 1 + (i - n - 1)], calls[i - n - 1]));
        }
    }
}

proof fn lemma_abandoned(h: Seq<MessageModel>, from: nat, calls: Seq<ToolCallModel>, index: int)
    requires
        answered_up_to(h, from, calls, index),
    ensures
        paired(h + crate::agent::agent_loop::abandoned(calls, index), from),
{
    let rest = crate::agent::agent_loop::abandoned(calls, index);
    let all = h + rest;
    let n = h.len() - 1 - index;
    assert(all.take(n) =~= h.take(n));
    assert forall|k: int| 0 <= k < calls.len() implies answers(all[n + 1 + k], #[trigger] calls[k]) by {
        if k < index {
            assert(all[n + 1 + k] == h[n + 1 + k]);
        } else {
            assert(all[n + 1 + k] == rest[k - index]);
        }
    }
    assert(answered_up_to(all, from, calls, calls.len() as int));
    lemma_all_answered(all, from, calls);
}

proof fn lemma_push_request(h: Seq<MessageModel>, from: nat, m: MessageModel, calls: Seq<ToolCallModel>)
    requires
        paired(h, from),
        from <= h.len(),
        m is Assistant,
        m->tool_calls == Some(calls),
    ensures
        answered_up_to(h.push(m), from, calls, 0),
{
    assert(h.push(m).take(h.len() as int) =~= h);
}

proof fn lemma_call_answered(
    s: LoopModel,
    from: nat,
    calls: Seq<ToolCallModel>,
    index: int,
    content: Seq<char>,
    is_error: bool,
)
    requires
        answered_up_to(s.history, from, calls, index),
        index < calls.len(),
    ensures
        answered_so_far(crate::agent::agent_loop::call_answered(s, calls, index, content, is_error).state, from),
{
    let m = MessageModel::Tool { content, tool_call_id: calls[index].id };
    lemma_push_answer(s.history, from, calls, index, m);
    if index + 1 == calls.len() {
        lemma_all_answered(s.history.push(m), from, calls);
    }
}

proof fn lemma_step_paired(s: LoopModel, from: nat, i: InputModel)
    requires
        s.valid(),
        answered_so_far(s, from),
        from <= s.history.len(),
        injects_plain(i),
    ensures
        answered_so_far(crate::agent::agent_loop::step(s, i).state, from),
{
    match s.phase {
        PhaseModel::Draining => {
            if let InputModel::Steering(SteeringModel::InjectMessage(m)) = i {
                lemma_push_plain(s.history, from, m);
            }
        },
        PhaseModel::Streaming(p) => {
            let text = crate::ai::message::assistant_text(p.content);
            lemma_push_plain(s.history, from, text);
            let asking = MessageModel::Assistant { content: p.content, tool_calls: Some(p.tool_requests) };
            lemma_push_request(s.history, from, asking, p.tool_requests);
        },
        PhaseModel::RunningTool { calls, index } => {
            if let InputModel::ToolFinished(output) = i {
                let o = crate::agent::agent_loop::tool_output(calls[index].name, output);
                lemma_call_answered(s, from, calls, index, o.content, o.is_error);
            }
        },
        PhaseModel::AwaitingApproval { calls, index, .. } => {
            lemma_abandoned(s.history, from, calls, index);
            if let InputModel::Steering(SteeringModel::ApprovalResponse { decision, .. }) = i {
                if let DecisionModel::Denied { reason } = decision {
                    lemma_call_answered(s, from, calls, index, crate::agent::agent_loop::refusal(reason), true);
                }
            }
        },
        PhaseModel::RunningApproved { calls, index } => {
            if let InputModel::ToolFinished(output) = i {
                let o = crate::agent::agent_loop::tool_output(calls[index].name, output);
                lemma_call_answered(s, from, calls, index, o.content, o.is_error);
            }
        },
        _ => {},
    }
}

/// Tool calls and their answers stay paired: whenever the language model is
/// asked, and when the run is over, each tool call of the messages that the run
/// added is followed by its answer. This supposes that nobody makes the assistant
/// ask for tools from outside.
pub proof fn lemma_tool_calls_are_answered(history: Seq<MessageModel>, max_rounds: nat, inputs: Seq<InputModel>)
    requires
        forall|k: int| 0 <= k < inputs.len() ==> injects_plain(#[trigger] inputs[k]),
    ensures
        ({
            let s = run_of(history, max_rounds, inputs).state;
            s.phase is CallingModel || s.phase is Finished ==> paired(s.history, history.len())
        }),
{
    lemma_answered_so_far(history, max_rounds, inputs);
}

proof fn lemma_answered_so_far(history: Seq<MessageModel>, max_rounds: nat, inputs: Seq<InputModel>)
    requires
        forall|k: int| 0 <= k < inputs.len() ==> injects_plain(#[trigger] inputs[k]),
    ensures
        answered_so_far(run_of(history, max_rounds, inputs).state, history.len()),
    decreases inputs.len(),
{
    if inputs.len() > 0 {
        let earlier = inputs.drop_last();
        assert forall|k: int| 0 <= k < earlier.len() implies injects_plain(#[trigger] earlier[k]) by {
            assert(earlier[k] == inputs[k]);
        }
        lemma_answered_so_far(history, max_rounds, earlier);
        lemma_rounds_are_limited(history, max_rounds, earlier);
        lemma_history_grows(history, max_rounds, earlier);
        lemma_step_paired(run_of(history, max_rounds, earlier).state, history.len(), inputs.last());
    }
}

// ---------------------------------------------------------------------------
// The reply
// ---------------------------------------------------------------------------

/// The text that was shown.
pub open spec fn shown(events: Seq<EventModel>) -> Seq<char>
    decreases events.len(),
{
    if events.len() == 0 {
        Seq::empty()
    } else {
        shown(events.drop_last()) + match events.last() {
            EventModel::Text(t) => t,
            _ => Seq::empty(),
        }
    }
}

/// What is kept of a reply is what was shown of it: after any chunks, the text
/// that joins the conversation is the text of the events, one after the other.
pub proof fn lemma_shown_text_is_kept(s: LoopModel, chunks: Seq<ChunkModel>)
    requires
        s.phase == PhaseModel::Streaming(crate::agent::agent_loop::nothing_read()),
    ensures
        ({
            let r = run(
                crate::agent::agent_loop::quiet(s),
                chunks.map_values(|c: ChunkModel| InputModel::Chunk(c)),
            );
            &&& r.state.phase is Streaming
            &&& r.state.phase->Streaming_0.content == shown(r.events)
        }),
    decreases chunks.len(),
{
    let begin = crate::agent::agent_loop::quiet(s);
    let inputs = chunks.map_values(|c: ChunkModel| InputModel::Chunk(c));
    if chunks.len() > 0 {
        let earlier = chunks.drop_last();
        let before = run(begin, earlier.map_values(|c: ChunkModel| InputModel::Chunk(c)));
        lemma_shown_text_is_kept(s, earlier);
        assert(inputs.drop_last() =~= earlier.map_values(|c: ChunkModel| InputModel::Chunk(c)));
        let after = run(begin, inputs);
        match chunks.last() {
            ChunkModel::Text(t) => {
                assert(after.events.drop_last() =~= before.events);
            },
            _ => {
                assert(after.events =~= before.events);
            },
        }
    }
}

/// What has been read after all of the chunks.
pub open spec fn read_all(chunks: Seq<ChunkModel>) -> ProgressModel
    decreases chunks.len(),
{
    if chunks.len() == 0 {
        crate::agent::agent_loop::nothing_read()
    } else {
        crate::agent::agent_loop::read(read_all(chunks.drop_last()), chunks.last())
    }
}

/// The text of the chunks.
pub open spec fn text_in(chunks: Seq<ChunkModel>) -> Seq<char>
    decreases chunks.len(),
{
    if chunks.len() == 0 {
        Seq::empty()
    } else {
        match chunks.last() {
            ChunkModel::Text(t) => text_in(chunks.drop_last()) + t,
            _ => text_in(chunks.drop_last()),
        }
    }
}

/// The tool calls that the chunks ask for.
pub open spec fn calls_in(chunks: Seq<ChunkModel>) -> Seq<ToolCallModel>
    decreases chunks.len(),
{
    if chunks.len() == 0 {
        Seq::empty()
    } else {
        match chunks.last() {
            ChunkModel::ToolUse { id, name, input } => calls_in(chunks.drop_last()).push(
                ToolCallModel { id, name, input },
            ),
            _ => calls_in(chunks.drop_last()),
        }
    }
}

/// The reason for stopping and the tokens that the chunks tell last.
pub open spec fn ending_in(chunks: Seq<ChunkModel>) -> Option<(StopReason, UsageModel)>
    decreases chunks.len(),
{
    if chunks.len() == 0 {
        None
    } else {
        match chunks.last() {
            ChunkModel::Finished { stop_reason, usage } => Some((stop_reason, usage)),
            _ => ending_in(chunks.drop_last()),
        }
    }
}

proof fn lemma_read_all(chunks: Seq<ChunkModel>)
    ensures
        ({
            let p = read_all(chunks);
            &&& p.content == text_in(chunks)
            &&& p.tool_requests == calls_in(chunks)
            &&& match ending_in(chunks) {
                Some((reason, usage)) => p.stop_reason == Some(reason) && p.usage == usage,
                None => p.stop_reason is None && p.usage == crate::ai::stream::token_usage(0, 0),
            }
        }),
    decreases chunks.len(),
{
    if chunks.len() > 0 {
        lemma_read_all(chunks.drop_last());
    }
}

/// A reply that tells why it ended comes to its text, its tokens and the tool calls
/// that it asks for, in their order. It asks for tools exactly if there are such
/// tool calls, whatever the reason is; else the reason decides.
pub proof fn lemma_what_a_reply_comes_to(chunks: Seq<ChunkModel>)
    requires
        ending_in(chunks) is Some,
    ensures
        ({
            let (reason, usage) = ending_in(chunks)->0;
            crate::agent::agent_loop::outcome(read_all(chunks), StreamEndModel::Closed) == if calls_in(chunks).len()
                > 0 {
                OutcomeModel::ToolUse { content: text_in(chunks), tool_calls: calls_in(chunks), usage }
            } else if reason == StopReason::MaxTokens {
                OutcomeModel::MaxTokens { content: text_in(chunks), usage }
            } else {
                OutcomeModel::EndTurn { content: text_in(chunks), usage }
            }
        }),
{
    lemma_read_all(chunks);
}

/// The tokens of the replies that were read.
pub open spec fn tokens_read(begin: StepModel, inputs: Seq<InputModel>) -> (nat, nat)
    decreases inputs.len(),
{
    if inputs.len() == 0 {
        (0, 0)
    } else {
        let before = tokens_read(begin, inputs.drop_last());
        match run(begin, inputs.drop_last()).state.phase {
            PhaseModel::Streaming(p) if inputs.last() is StreamClosed || inputs.last() is StreamFailed
                || inputs.last() is Aborted => (
                before.0 + p.usage.input_tokens,
                before.1 + p.usage.output_tokens,
            ),
            _ => before,
        }
    }
}

/// The tokens of a run are those of its replies.
pub proof fn lemma_tokens_add_up(history: Seq<MessageModel>, max_rounds: nat, inputs: Seq<InputModel>)
    ensures
        ({
            let s = run_of(history, max_rounds, inputs).state;
            (s.input_tokens, s.output_tokens) == tokens_read(
                crate::agent::agent_loop::start(history, max_rounds),
                inputs,
            )
        }),
    decreases inputs.len(),
{
    if inputs.len() > 0 {
        lemma_tokens_add_up(history, max_rounds, inputs.drop_last());
    }
}

// ---------------------------------------------------------------------------
// Consent
// ---------------------------------------------------------------------------

/// A tool that asked for consent runs only after the user has given it for that
/// very call.
pub proof fn lemma_no_run_without_consent(s: LoopModel, i: InputModel)
    requires
        crate::agent::agent_loop::step(s, i).state.phase is RunningApproved,
        s.phase !is RunningApproved,
    ensures
        s.phase is AwaitingApproval,
        s.call() == crate::agent::agent_loop::step(s, i).state.call(),
        i == InputModel::Steering(
            SteeringModel::ApprovalResponse {
                tool_call_id: s.call()->0.id,
                decision: DecisionModel::Approved,
            },
        ),
{
}

/// The messages for the conversation among what was said.
pub open spec fn injected_in(said: Seq<SteeringModel>) -> Seq<MessageModel>
    decreases said.len(),
{
    if said.len() == 0 {
        Seq::empty()
    } else {
        match said.last() {
            SteeringModel::InjectMessage(m) => injected_in(said.drop_last()).push(m),
            SteeringModel::ApprovalResponse { .. } => injected_in(said.drop_last()),
        }
    }
}

/// Every message that was said before a round joins the conversation: whatever else
/// was said among them, the messages are taken up in their order until nothing is
/// left or nobody can say anything any more, and then the language model is asked.
pub proof fn lemma_all_messages_are_taken_up(s: LoopModel, said: Seq<SteeringModel>, end: InputModel)
    requires
        s.phase is Draining,
        end is SteeringEmpty || end is SteeringClosed,
    ensures
        run(
            crate::agent::agent_loop::quiet(s),
            said.map_values(|m: SteeringModel| InputModel::Steering(m)).push(end),
        ).state == (LoopModel { history: s.history + injected_in(said), phase: PhaseModel::CallingModel, ..s }),
{
    let inputs = said.map_values(|m: SteeringModel| InputModel::Steering(m));
    lemma_draining(s, said);
    assert(inputs.push(end).drop_last() =~= inputs);
}

proof fn lemma_draining(s: LoopModel, said: Seq<SteeringModel>)
    requires
        s.phase is Draining,
    ensures
        run(
            crate::agent::agent_loop::quiet(s),
            said.map_values(|m: SteeringModel| InputModel::Steering(m)),
        ).state == (LoopModel { history: s.history + injected_in(said), ..s }),
    decreases said.len(),
{
    let inputs = said.map_values(|m: SteeringModel| InputModel::Steering(m));
    if said.len() > 0 {
        let earlier = said.drop_last();
        lemma_draining(s, earlier);
        assert(inputs.drop_last() =~= earlier.map_values(|m: SteeringModel| InputModel::Steering(m)));
        assert(inputs.last() == InputModel::Steering(said.last()));
        if let SteeringModel::InjectMessage(m) = said.last() {
            assert((s.history + injected_in(earlier)).push(m) =~= s.history + injected_in(said));
        }
    } else {
        assert(s.history + injected_in(said) =~= s.history);
    }
}

/// No message is lost in the wait for consent: whatever is said meanwhile, and
/// however the wait ends, the messages for the conversation are handed back in
/// their order.
pub proof fn lemma_wait_loses_nothing(s: LoopModel, said: Seq<SteeringModel>, end: InputModel)
    requires
        s.phase is AwaitingApproval,
        s.phase->injected == Seq::<MessageModel>::empty(),
        forall|k: int|
            0 <= k < said.len() ==> crate::agent::approval::answered(s.call()->0.id, #[trigger] said[k]) is None,
        match end {
            InputModel::Aborted => true,
            InputModel::SteeringClosed => true,
            InputModel::Steering(m) => crate::agent::approval::answered(s.call()->0.id, m) is Some,
            _ => false,
        },
    ensures
        run(
            crate::agent::agent_loop::quiet(s),
            said.map_values(|m: SteeringModel| InputModel::Steering(m)).push(end),
        ).reinjected == injected_in(said),
{
    let begin = crate::agent::agent_loop::quiet(s);
    let inputs = said.map_values(|m: SteeringModel| InputModel::Steering(m));
    lemma_waiting(s, said);
    assert(inputs.push(end).drop_last() =~= inputs);
    assert(run(begin, inputs.push(end)).reinjected =~= injected_in(said));
}

proof fn lemma_waiting(s: LoopModel, said: Seq<SteeringModel>)
    requires
        s.phase is AwaitingApproval,
        s.phase->injected == Seq::<MessageModel>::empty(),
        forall|k: int|
            0 <= k < said.len() ==> crate::agent::approval::answered(s.call()->0.id, #[trigger] said[k]) is None,
    ensures
        ({
            let r = run(
                crate::agent::agent_loop::quiet(s),
                said.map_values(|m: SteeringModel| InputModel::Steering(m)),
            );
            &&& r.state.phase == PhaseModel::AwaitingApproval {
                calls: s.phase->AwaitingApproval_calls,
                index: s.phase->AwaitingApproval_index,
                injected: injected_in(said),
            }
            &&& r.reinjected == Seq::<MessageModel>::empty()
        }),
    decreases said.len(),
{
    let inputs = said.map_values(|m: SteeringModel| InputModel::Steering(m));
    if said.len() > 0 {
        let earlier = said.drop_last();
        assert forall|k: int| 0 <= k < earlier.len() implies crate::agent::approval::answered(
            s.call()->0.id,
            #[trigger] earlier[k],
        ) is None by {
            assert(earlier[k] == said[k]);
        }
        lemma_waiting(s, earlier);
        assert(inputs.drop_last() =~= earlier.map_values(|m: SteeringModel| InputModel::Steering(m)));
        assert(crate::agent::approval::answered(s.call()->0.id, said[said.len() - 1]) is None);
    }
}

} // verus!
