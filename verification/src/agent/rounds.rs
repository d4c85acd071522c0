//! What a round of a run comes to: the language model is asked with the whole
//! conversation, and its reply and the answers of the tools join it.

use vstd::prelude::*;
use crate::agent::agent_loop::{ActionModel, InputModel, LoopModel, PhaseModel};
use crate::agent::event::EventModel;
use crate::agent::handle::SteeringModel;
use crate::ai::message::{MessageModel, ToolCallModel};
use crate::ai::stream::{ChunkModel, UsageModel};
use crate::tool::output::ToolOutputModel;

verus! {

/// The state of a run after a number of reports.
pub open spec fn after(s: LoopModel, inputs: Seq<InputModel>) -> LoopModel
    decreases inputs.len(),
{
    if inputs.len() == 0 {
        s
    } else {
        crate::agent::agent_loop::step(after(s, inputs.drop_last()), inputs.last()).state
    }
}

/// What is to be seen of a number of reports.
pub open spec fn seen_of(s: LoopModel, inputs: Seq<InputModel>) -> Seq<EventModel>
    decreases inputs.len(),
{
    if inputs.len() == 0 {
        Seq::empty()
    } else {
        seen_of(s, inputs.drop_last()) + crate::agent::agent_loop::step(
            after(s, inputs.drop_last()),
            inputs.last(),
        ).events
    }
}

/// What is said to the agent, as reports.
pub open spec fn as_said(said: Seq<SteeringModel>) -> Seq<InputModel> {
    Seq::new(said.len(), |k: int| InputModel::Steering(said[k]))
}

/// The chunks of a reply, as reports.
pub open spec fn as_read(chunks: Seq<ChunkModel>) -> Seq<InputModel> {
    Seq::new(chunks.len(), |k: int| InputModel::Chunk(chunks[k]))
}

/// What tools gave back, as reports.
pub open spec fn as_run(outputs: Seq<ToolOutputModel>) -> Seq<InputModel> {
    Seq::new(outputs.len(), |k: int| InputModel::ToolFinished(Some(outputs[k])))
}

proof fn lemma_one_more(s: LoopModel, inputs: Seq<InputModel>, i: InputModel)
    ensures
        after(s, inputs.push(i)) == crate::agent::agent_loop::step(after(s, inputs), i).state,
        seen_of(s, inputs.push(i)) == seen_of(s, inputs) + crate::agent::agent_loop::step(after(s, inputs), i).events,
{
    assert(inputs.push(i).drop_last() =~= inputs);
}

proof fn lemma_one(s: LoopModel, i: InputModel)
    ensures
        after(s, seq![i]) == crate::agent::agent_loop::step(s, i).state,
        seen_of(s, seq![i]) == crate::agent::agent_loop::step(s, i).events,
{
    let none = Seq::<InputModel>::empty();
    lemma_one_more(s, none, i);
    assert(none.push(i) =~= seq![i]);
    assert(seen_of(s, none) + crate::agent::agent_loop::step(s, i).events
        =~= crate::agent::agent_loop::step(s, i).events);
}

proof fn lemma_both(s: LoopModel, a: Seq<InputModel>, b: Seq<InputModel>)
    ensures
        after(s, a + b) == after(after(s, a), b),
        seen_of(s, a + b) == seen_of(s, a) + seen_of(after(s, a), b),
    decreases b.len(),
{
    if b.len() == 0 {
        assert(a + b =~= a);
        assert(seen_of(s, a) + seen_of(after(s, a), b) =~= seen_of(s, a));
    } else {
        lemma_both(s, a, b.drop_last());
        assert((a + b).drop_last() =~= a + b.drop_last());
        assert(seen_of(s, a + b) =~= seen_of(s, a) + seen_of(after(s, a), b));
    }
}

// ---------------------------------------------------------------------------
// The language model is asked
// ---------------------------------------------------------------------------

proof fn lemma_said(s: LoopModel, said: Seq<SteeringModel>)
    requires
        s.phase is Draining,
    ensures
        after(s, as_said(said)) == (LoopModel { history: s.history + crate::agent::run::injected_in(said), ..s }),
        seen_of(s, as_said(said)).len() == 0,
    decreases said.len(),
{
    if said.len() > 0 {
        let earlier = said.drop_last();
        lemma_said(s, earlier);
        assert(as_said(said) =~= as_said(earlier).push(InputModel::Steering(said.last())));
        lemma_one_more(s, as_said(earlier), InputModel::Steering(said.last()));
        if let SteeringModel::InjectMessage(m) = said.last() {
            assert((s.history + crate::agent::run::injected_in(earlier)).push(m)
                =~= s.history + crate::agent::run::injected_in(said));
        }
    } else {
        assert(s.history + crate::agent::run::injected_in(said) =~= s.history);
    }
}

/// At the beginning of a round the language model is asked with the whole
/// conversation, followed by the messages that were said to the agent since, in their
/// order; nothing else changes and nothing is to be seen.
pub proof fn lemma_model_is_asked_with_everything(s: LoopModel, said: Seq<SteeringModel>, end: InputModel)
    requires
        s.phase is CheckingAbort,
        end is SteeringEmpty || end is SteeringClosed,
    ensures
        ({
            let inputs = seq![InputModel::NotAborted] + as_said(said) + seq![end];
            let history = s.history + crate::agent::run::injected_in(said);
            &&& after(s, inputs) == (LoopModel { history, phase: PhaseModel::CallingModel, ..s })
            &&& crate::agent::agent_loop::next_action(after(s, inputs)) == (ActionModel::CallModel { history })
            &&& seen_of(s, inputs).len() == 0
        }),
{
    let first = seq![InputModel::NotAborted];
    lemma_one(s, InputModel::NotAborted);
    let draining = after(s, first);
    lemma_both(s, first, as_said(said));
    lemma_said(draining, said);
    lemma_both(s, first + as_said(said), seq![end]);
    lemma_one(after(s, first + as_said(said)), end);
}

/// What the user asks reaches the language model as it is, behind the conversation so
/// far: the first request of a run ends with it.
pub proof fn lemma_user_is_heard(history: Seq<MessageModel>, user_input: Seq<char>, max_rounds: nat)
    requires
        max_rounds > 0,
    ensures
        ({
            let begin = crate::agent::agent_loop::start(
                crate::agent::agent::with_user_message(history, user_input),
                max_rounds,
            );
            let asking = after(begin.state, seq![InputModel::NotAborted, InputModel::SteeringEmpty]);
            &&& begin.events.len() == 0
            &&& crate::agent::agent_loop::next_action(asking) == (ActionModel::CallModel {
                history: history + seq![MessageModel::User { content: user_input }],
            })
        }),
{
    let begin = crate::agent::agent_loop::start(
        crate::agent::agent::with_user_message(history, user_input),
        max_rounds,
    );
    let nothing = Seq::<SteeringModel>::empty();
    lemma_model_is_asked_with_everything(begin.state, nothing, InputModel::SteeringEmpty);
    assert(seq![InputModel::NotAborted] + as_said(nothing) + seq![InputModel::SteeringEmpty] =~= seq![
        InputModel::NotAborted,
        InputModel::SteeringEmpty,
    ]);
    assert(begin.state.history + crate::agent::run::injected_in(nothing) =~= history + seq![
        MessageModel::User { content: user_input },
    ]);
}

/// A new agent begins with what it was told of its work: the first request holds that, unless
/// it is empty, and then what the user asks, and nothing else.
pub proof fn lemma_prompt_comes_first<M>(model: M, system_prompt: Seq<char>, user_input: Seq<char>, max_rounds: nat)
    requires
        max_rounds > 0,
    ensures
        ({
            let agent = crate::agent::agent::fresh(model, system_prompt);
            let begin = crate::agent::agent_loop::start(
                crate::agent::agent::with_user_message(agent.history, user_input),
                max_rounds,
            );
            let asking = after(begin.state, seq![InputModel::NotAborted, InputModel::SteeringEmpty]);
            let question = MessageModel::User { content: user_input };
            &&& !agent.running
            &&& agent.model == model
            &&& crate::agent::agent_loop::next_action(asking) == (ActionModel::CallModel {
                history: if system_prompt.len() == 0 {
                    seq![question]
                } else {
                    seq![MessageModel::System { content: system_prompt }, question]
                },
            })
        }),
{
    let history = crate::agent::agent::fresh(model, system_prompt).history;
    let question = MessageModel::User { content: user_input };
    lemma_user_is_heard(history, user_input, max_rounds);
    assert(history + seq![question] =~= if system_prompt.len() == 0 {
        seq![question]
    } else {
        seq![MessageModel::System { content: system_prompt }, question]
    });
}

/// What a run came to is known once it is over and not before: the whole conversation, the
/// rounds that came to their end and the tokens of all replies.
pub proof fn lemma_what_a_run_comes_to(s: LoopModel)
    ensures
        crate::agent::agent_loop::came_to(s) is Some <==> s.phase is Finished,
        crate::agent::agent_loop::came_to(s) matches Some(r) ==> {
            &&& r.messages == s.history
            &&& r.total_turns == s.total_turns
            &&& r.usage.input_tokens == s.input_tokens
            &&& r.usage.output_tokens == s.output_tokens
        },
{
}

/// A run that may take no round is over at once, with the conversation as it was and
/// without a word to the language model.
pub proof fn lemma_no_rounds_no_run(history: Seq<MessageModel>)
    ensures
        ({
            let begin = crate::agent::agent_loop::start(history, 0);
            &&& begin.events == seq![EventModel::Done { messages: history }]
            &&& begin.state.history == history
            &&& crate::agent::agent_loop::next_action(begin.state) is Stop
        }),
{
    assert(crate::agent::agent_loop::start(history, 0).events =~= seq![EventModel::Done { messages: history }]);
}

/// A run that the user stops before the language model is asked, or whose request is
/// refused, leaves the conversation as it is, and the user is told why it ended.
pub proof fn lemma_run_ends_before_the_reply(s: LoopModel, e: Seq<char>)
    ensures
        s.phase is CheckingAbort ==> {
            let next = crate::agent::agent_loop::step(s, InputModel::Aborted);
            &&& next.state == (LoopModel { phase: PhaseModel::Finished, ..s })
            &&& next.events == seq![
                EventModel::Error { message: "Agent aborted by user"@, recoverable: false },
                EventModel::Done { messages: s.history },
            ]
        },
        s.phase is CallingModel ==> {
            let next = crate::agent::agent_loop::step(s, InputModel::ModelRefused(e));
            &&& next.state == (LoopModel { phase: PhaseModel::Finished, ..s })
            &&& next.events == seq![
                EventModel::Error { message: "Provider error: "@ + e, recoverable: false },
                EventModel::Done { messages: s.history },
            ]
        },
{
    assert(s.phase is CheckingAbort ==> crate::agent::agent_loop::step(s, InputModel::Aborted).events =~= seq![
        EventModel::Error { message: "Agent aborted by user"@, recoverable: false },
        EventModel::Done { messages: s.history },
    ]);
    assert(s.phase is CallingModel ==> crate::agent::agent_loop::step(s, InputModel::ModelRefused(e)).events
        =~= seq![
        EventModel::Error { message: "Provider error: "@ + e, recoverable: false },
        EventModel::Done { messages: s.history },
    ]);
}

// ---------------------------------------------------------------------------
// The language model replies
// ---------------------------------------------------------------------------

/// The texts of chunks, each as an event.
pub open spec fn texts_in(chunks: Seq<ChunkModel>) -> Seq<EventModel>
    decreases chunks.len(),
{
    if chunks.len() == 0 {
        Seq::empty()
    } else {
        match chunks.last() {
            ChunkModel::Text(t) => texts_in(chunks.drop_last()).push(EventModel::Text(t)),
            _ => texts_in(chunks.drop_last()),
        }
    }
}

proof fn lemma_chunks(s: LoopModel, chunks: Seq<ChunkModel>)
    requires
        s.phase == PhaseModel::Streaming(crate::agent::agent_loop::nothing_read()),
    ensures
        ({
            let r = after(s, as_read(chunks));
            &&& r.phase is Streaming
            &&& r == (LoopModel { phase: r.phase, ..s })
            &&& r.phase->Streaming_0.content == crate::agent::run::text_in(chunks)
            &&& r.phase->Streaming_0.tool_requests == crate::agent::run::calls_in(chunks)
            &&& match crate::agent::run::ending_in(chunks) {
                Some((reason, usage)) => r.phase->Streaming_0.stop_reason == Some(reason)
                    && r.phase->Streaming_0.usage == usage,
                None => r.phase->Streaming_0.stop_reason is None && r.phase->Streaming_0.usage.input_tokens == 0
                    && r.phase->Streaming_0.usage.output_tokens == 0,
            }
            &&& seen_of(s, as_read(chunks)) == texts_in(chunks)
        }),
    decreases chunks.len(),
{
    if chunks.len() > 0 {
        let earlier = chunks.drop_last();
        lemma_chunks(s, earlier);
        assert(as_read(chunks) =~= as_read(earlier).push(InputModel::Chunk(chunks.last())));
        lemma_one_more(s, as_read(earlier), InputModel::Chunk(chunks.last()));
        assert(seen_of(s, as_read(chunks)) =~= texts_in(chunks));
    } else {
        assert(as_read(chunks) =~= Seq::empty());
    }
}

/// What the tokens of a reply come to: nothing if it does not say.
pub open spec fn tokens_of(chunks: Seq<ChunkModel>) -> (nat, nat) {
    match crate::agent::run::ending_in(chunks) {
        Some((_, usage)) => (usage.input_tokens, usage.output_tokens),
        None => (0, 0),
    }
}

proof fn lemma_reply(s: LoopModel, chunks: Seq<ChunkModel>, end: InputModel)
    requires
        s.phase is CallingModel,
    ensures
        ({
            let inputs = seq![InputModel::ModelOpened] + as_read(chunks);
            let r = after(s, inputs);
            &&& r.phase is Streaming
            &&& r == (LoopModel { phase: r.phase, ..s })
            &&& r.phase->Streaming_0.content == crate::agent::run::text_in(chunks)
            &&& r.phase->Streaming_0.tool_requests == crate::agent::run::calls_in(chunks)
            &&& r.phase->Streaming_0.stop_reason is Some <==> crate::agent::run::ending_in(chunks) is Some
            &&& r.phase->Streaming_0.usage.input_tokens == tokens_of(chunks).0
            &&& r.phase->Streaming_0.usage.output_tokens == tokens_of(chunks).1
            &&& after(s, inputs + seq![end]) == crate::agent::agent_loop::step(r, end).state
            &&& seen_of(s, inputs + seq![end]) == texts_in(chunks) + crate::agent::agent_loop::step(r, end).events
        }),
{
    let first = seq![InputModel::ModelOpened];
    lemma_one(s, InputModel::ModelOpened);
    let reading = after(s, first);
    lemma_both(s, first, as_read(chunks));
    lemma_chunks(reading, chunks);
    let r = after(s, first + as_read(chunks));
    lemma_both(s, first + as_read(chunks), seq![end]);
    lemma_one(r, end);
    assert(seen_of(s, first) + texts_in(chunks) =~= texts_in(chunks));
}

/// A reply that asks for no tool ends the run: its text, all of it, joins the
/// conversation as the assistant's; the user sees it piece by piece, and then what
/// all the replies of the run took in tokens.
pub proof fn lemma_reply_ends_the_run(s: LoopModel, chunks: Seq<ChunkModel>)
    requires
        s.phase is CallingModel,
        crate::agent::run::ending_in(chunks) is Some,
        crate::agent::run::calls_in(chunks).len() == 0,
    ensures
        ({
            let inputs = seq![InputModel::ModelOpened] + as_read(chunks) + seq![InputModel::StreamClosed];
            let text = crate::agent::run::text_in(chunks);
            let history = if text.len() == 0 {
                s.history
            } else {
                s.history.push(MessageModel::Assistant { content: text, tool_calls: None })
            };
            let input_tokens = s.input_tokens + tokens_of(chunks).0;
            let output_tokens = s.output_tokens + tokens_of(chunks).1;
            &&& after(s, inputs) == (LoopModel {
                history,
                input_tokens,
                output_tokens,
                total_turns: s.total_turns + 1,
                phase: PhaseModel::Finished,
                ..s
            })
            &&& seen_of(s, inputs) == texts_in(chunks) + seq![
                EventModel::TurnEnd { usage: UsageModel { input_tokens, output_tokens, extra: Map::empty() } },
                EventModel::Done { messages: history },
            ]
        }),
{
    lemma_reply(s, chunks, InputModel::StreamClosed);
    let inputs = seq![InputModel::ModelOpened] + as_read(chunks);
    let last = crate::agent::agent_loop::step(after(s, inputs), InputModel::StreamClosed);
    assert(last.events =~= seq![
        EventModel::TurnEnd {
            usage: UsageModel {
                input_tokens: s.input_tokens + tokens_of(chunks).0,
                output_tokens: s.output_tokens + tokens_of(chunks).1,
                extra: Map::empty(),
            },
        },
        EventModel::Done { messages: last.state.history },
    ]);
}

/// A reply that breaks off ends the run with an error, which says whether the user
/// stopped the agent, the reply failed or gave no reason for its end; the text that
/// had come by then joins the conversation, and the tools that it asked for do not run.
pub proof fn lemma_broken_reply_ends_the_run(s: LoopModel, chunks: Seq<ChunkModel>, end: InputModel)
    requires
        s.phase is CallingModel,
        ({
            ||| end is Aborted
            ||| end is StreamFailed
            ||| end is StreamClosed && crate::agent::run::ending_in(chunks) is None
        }),
    ensures
        ({
            let inputs = seq![InputModel::ModelOpened] + as_read(chunks) + seq![end];
            let text = crate::agent::run::text_in(chunks);
            let history = if text.len() == 0 {
                s.history
            } else {
                s.history.push(MessageModel::Assistant { content: text, tool_calls: None })
            };
            let message = match end {
                InputModel::Aborted => "Agent aborted by user"@,
                InputModel::StreamFailed(e) => "Provider stream error: "@ + e,
                _ => "Stream ended without a stop reason"@,
            };
            &&& after(s, inputs) == (LoopModel {
                history,
                input_tokens: s.input_tokens + tokens_of(chunks).0,
                output_tokens: s.output_tokens + tokens_of(chunks).1,
                phase: PhaseModel::Finished,
                ..s
            })
            &&& seen_of(s, inputs) == texts_in(chunks) + seq![
                EventModel::Error { message, recoverable: false },
                EventModel::Done { messages: history },
            ]
        }),
{
    lemma_reply(s, chunks, end);
    let inputs = seq![InputModel::ModelOpened] + as_read(chunks);
    let last = crate::agent::agent_loop::step(after(s, inputs), end);
    assert(last.events =~= seq![last.events[0], EventModel::Done { messages: last.state.history }]);
}

// ---------------------------------------------------------------------------
// Tools run
// ---------------------------------------------------------------------------

/// The answers of the first `n` of `calls`, for the language model.
pub open spec fn tool_messages(
    calls: Seq<ToolCallModel>,
    outputs: Seq<ToolOutputModel>,
    n: nat,
) -> Seq<MessageModel> {
    Seq::new(n, |k: int| MessageModel::Tool { content: outputs[k].content, tool_call_id: calls[k].id })
}

/// What is to be seen of the first `n` of `calls`: each is announced and its answer
/// told.
pub open spec fn tool_events(calls: Seq<ToolCallModel>, outputs: Seq<ToolOutputModel>, n: nat) -> Seq<EventModel>
    decreases n,
{
    if n == 0 {
        Seq::empty()
    } else {
        let k = n - 1;
        tool_events(calls, outputs, k as nat) + seq![
            EventModel::ToolRequest { id: calls[k].id, name: calls[k].name, input: calls[k].input },
            EventModel::ToolResponse {
                id: calls[k].id,
                content: outputs[k].content,
                is_error: outputs[k].is_error,
            },
        ]
    }
}

proof fn lemma_tools(s: LoopModel, calls: Seq<ToolCallModel>, outputs: Seq<ToolOutputModel>)
    requires
        s.phase == (PhaseModel::RunningTool { calls, index: 0 }),
        outputs.len() < calls.len(),
        forall|k: int| 0 <= k < outputs.len() ==> !(#[trigger] outputs[k]).needs_approval,
    ensures
        ({
            let n = outputs.len();
            let call = calls[n as int];
            &&& after(s, as_run(outputs)) == (LoopModel {
                history: s.history + tool_messages(calls, outputs, n),
                phase: PhaseModel::RunningTool { calls, index: n as int },
                ..s
            })
            &&& seq![EventModel::ToolRequest { id: calls[0].id, name: calls[0].name, input: calls[0].input }]
                + seen_of(s, as_run(outputs)) == tool_events(calls, outputs, n).push(
                EventModel::ToolRequest { id: call.id, name: call.name, input: call.input },
            )
        }),
    decreases outputs.len(),
{
    let n = outputs.len();
    let request = seq![EventModel::ToolRequest { id: calls[0].id, name: calls[0].name, input: calls[0].input }];
    if n > 0 {
        let earlier = outputs.drop_last();
        assert forall|k: int| 0 <= k < earlier.len() implies !(#[trigger] earlier[k]).needs_approval by {
            assert(earlier[k] == outputs[k]);
        }
        lemma_tools(s, calls, earlier);
        let i = InputModel::ToolFinished(Some(outputs.last()));
        assert(as_run(outputs) =~= as_run(earlier).push(i));
        lemma_one_more(s, as_run(earlier), i);
        assert(outputs[n - 1] == outputs.last());
        assert((s.history + tool_messages(calls, earlier, earlier.len())).push(
            MessageModel::Tool { content: outputs.last().content, tool_call_id: calls[n - 1].id },
        ) =~= s.history + tool_messages(calls, outputs, n));
        lemma_events_of_fewer(calls, outputs, earlier.len());
        let last = crate::agent::agent_loop::step(after(s, as_run(earlier)), i);
        let before = seen_of(s, as_run(earlier));
        lemma_next_answer(calls, outputs, n, request[0], before, last.events);
        assert(last.events.skip(1) =~= seq![last.events[1]]);
        assert(tool_events(calls, outputs, n) + last.events.skip(1) =~= tool_events(calls, outputs, n).push(
            last.events[1],
        ));
    } else {
        assert(as_run(outputs) =~= Seq::empty());
        assert(s.history + tool_messages(calls, outputs, n) =~= s.history);
        assert(request + seen_of(s, as_run(outputs)) =~= tool_events(calls, outputs, n).push(request[0]));
    }
}

proof fn lemma_next_answer(
    calls: Seq<ToolCallModel>,
    outputs: Seq<ToolOutputModel>,
    n: nat,
    request: EventModel,
    before: Seq<EventModel>,
    events: Seq<EventModel>,
)
    requires
        n > 0,
        ({
            let call = calls[n - 1];
            seq![request] + before == tool_events(calls, outputs, (n - 1) as nat).push(
                EventModel::ToolRequest { id: call.id, name: call.name, input: call.input },
            )
        }),
        events.len() > 0,
        events[0] == (EventModel::ToolResponse {
            id: calls[n - 1].id,
            content: outputs[n - 1].content,
            is_error: outputs[n - 1].is_error,
        }),
    ensures
        seq![request] + (before + events) == tool_events(calls, outputs, n) + events.skip(1),
{
    let call = calls[n - 1];
    let known = tool_events(calls, outputs, (n - 1) as nat);
    assert(seq![request] + (before + events) =~= (seq![request] + before) + events);
    let both = seq![EventModel::ToolRequest { id: call.id, name: call.name, input: call.input }, events[0]];
    assert(tool_events(calls, outputs, n) == known + both);
    assert((seq![request] + before) + events =~= known + both + events.skip(1));
}

proof fn lemma_events_of_fewer(calls: Seq<ToolCallModel>, outputs: Seq<ToolOutputModel>, n: nat)
    requires
        n < outputs.len(),
    ensures
        tool_events(calls, outputs.drop_last(), n) == tool_events(calls, outputs, n),
    decreases n,
{
    if n > 0 {
        lemma_events_of_fewer(calls, outputs, (n - 1) as nat);
        assert(outputs.drop_last()[n - 1] == outputs[n - 1]);
    }
}

proof fn lemma_tools_begin(s: LoopModel, chunks: Seq<ChunkModel>)
    requires
        s.phase is CallingModel,
        crate::agent::run::ending_in(chunks) is Some,
        crate::agent::run::calls_in(chunks).len() > 0,
    ensures
        ({
            let begun = seq![InputModel::ModelOpened] + as_read(chunks) + seq![InputModel::StreamClosed];
            let calls = crate::agent::run::calls_in(chunks);
            let reply = MessageModel::Assistant {
                content: crate::agent::run::text_in(chunks),
                tool_calls: Some(calls),
            };
            &&& after(s, begun) == (LoopModel {
                history: s.history + seq![reply],
                input_tokens: s.input_tokens + tokens_of(chunks).0,
                output_tokens: s.output_tokens + tokens_of(chunks).1,
                phase: PhaseModel::RunningTool { calls, index: 0 },
                ..s
            })
            &&& seen_of(s, begun) == texts_in(chunks) + seq![
                EventModel::ToolRequest { id: calls[0].id, name: calls[0].name, input: calls[0].input },
            ]
        }),
{
    let calls = crate::agent::run::calls_in(chunks);
    let inputs = seq![InputModel::ModelOpened] + as_read(chunks);
    lemma_reply(s, chunks, InputModel::StreamClosed);
    let last = crate::agent::agent_loop::step(after(s, inputs), InputModel::StreamClosed);
    assert(last.state.history =~= s.history + seq![last.state.history.last()]);
    assert(last.events =~= seq![last.events[0]]);
}

proof fn lemma_tools_end(s: LoopModel, calls: Seq<ToolCallModel>, outputs: Seq<ToolOutputModel>)
    requires
        s.phase == (PhaseModel::RunningTool { calls, index: 0 }),
        s.round + 1 < s.max_rounds,
        outputs.len() == calls.len(),
        outputs.len() > 0,
        forall|k: int| 0 <= k < outputs.len() ==> !(#[trigger] outputs[k]).needs_approval,
    ensures
        after(s, as_run(outputs)) == (LoopModel {
            history: s.history + tool_messages(calls, outputs, calls.len()),
            round: s.round + 1,
            total_turns: s.total_turns + 1,
            phase: PhaseModel::CheckingAbort,
            ..s
        }),
        seq![EventModel::ToolRequest { id: calls[0].id, name: calls[0].name, input: calls[0].input }] + seen_of(
            s,
            as_run(outputs),
        ) == tool_events(calls, outputs, calls.len()),
{
    let n = calls.len();
    let earlier = outputs.drop_last();
    assert forall|k: int| 0 <= k < earlier.len() implies !(#[trigger] earlier[k]).needs_approval by {
        assert(earlier[k] == outputs[k]);
    }
    lemma_tools(s, calls, earlier);
    let i = InputModel::ToolFinished(Some(outputs.last()));
    assert(outputs[n - 1] == outputs.last());
    assert(as_run(outputs) =~= as_run(earlier).push(i));
    lemma_one_more(s, as_run(earlier), i);
    assert((s.history + tool_messages(calls, earlier, earlier.len())).push(
        MessageModel::Tool { content: outputs.last().content, tool_call_id: calls[n - 1].id },
    ) =~= s.history + tool_messages(calls, outputs, n));
    lemma_events_of_fewer(calls, outputs, earlier.len());
    let last = crate::agent::agent_loop::step(after(s, as_run(earlier)), i);
    let request = EventModel::ToolRequest { id: calls[0].id, name: calls[0].name, input: calls[0].input };
    lemma_next_answer(calls, outputs, n, request, seen_of(s, as_run(earlier)), last.events);
    assert(last.events.skip(1) =~= Seq::empty());
    assert(tool_events(calls, outputs, n) + last.events.skip(1) =~= tool_events(calls, outputs, n));
}

/// A round in which the language model asks for tools: what it says and the calls that
/// it asks for join the conversation, and behind them the answer of each tool, text for
/// text, under the id of its call and in the order of the calls. The user sees the text,
/// each call as it begins and each answer. If a round is left, the next one begins.
pub proof fn lemma_round_of_tools(s: LoopModel, chunks: Seq<ChunkModel>, outputs: Seq<ToolOutputModel>)
    requires
        s.phase is CallingModel,
        s.round + 1 < s.max_rounds,
        crate::agent::run::ending_in(chunks) is Some,
        crate::agent::run::calls_in(chunks).len() > 0,
        outputs.len() == crate::agent::run::calls_in(chunks).len(),
        forall|k: int| 0 <= k < outputs.len() ==> !(#[trigger] outputs[k]).needs_approval,
    ensures
        ({
            let inputs = seq![InputModel::ModelOpened] + as_read(chunks) + seq![InputModel::StreamClosed] + as_run(
                outputs,
            );
            let calls = crate::agent::run::calls_in(chunks);
            let reply = MessageModel::Assistant {
                content: crate::agent::run::text_in(chunks),
                tool_calls: Some(calls),
            };
            &&& after(s, inputs) == (LoopModel {
                history: s.history + seq![reply] + tool_messages(calls, outputs, calls.len()),
                round: s.round + 1,
                total_turns: s.total_turns + 1,
                input_tokens: s.input_tokens + tokens_of(chunks).0,
                output_tokens: s.output_tokens + tokens_of(chunks).1,
                phase: PhaseModel::CheckingAbort,
                ..s
            })
            &&& seen_of(s, inputs) == texts_in(chunks) + tool_events(calls, outputs, calls.len())
        }),
{
    let calls = crate::agent::run::calls_in(chunks);
    let n = calls.len();
    let begun = seq![InputModel::ModelOpened] + as_read(chunks) + seq![InputModel::StreamClosed];
    lemma_tools_begin(s, chunks);
    let running = after(s, begun);
    lemma_tools_end(running, calls, outputs);
    lemma_both(s, begun, as_run(outputs));
    let request = EventModel::ToolRequest { id: calls[0].id, name: calls[0].name, input: calls[0].input };
    assert((texts_in(chunks) + seq![request]) + seen_of(running, as_run(outputs)) =~= texts_in(chunks) + (seq![
        request,
    ] + seen_of(running, as_run(outputs))));
}

/// What the tools answered in a round is what the language model goes on with: the
/// next request holds the conversation, what the language model had said and asked
/// for, and the answer to each of its calls, text for text.
pub proof fn lemma_model_goes_on_with_the_answers(
    s: LoopModel,
    chunks: Seq<ChunkModel>,
    outputs: Seq<ToolOutputModel>,
)
    requires
        s.phase is CallingModel,
        s.round + 1 < s.max_rounds,
        crate::agent::run::ending_in(chunks) is Some,
        crate::agent::run::calls_in(chunks).len() > 0,
        outputs.len() == crate::agent::run::calls_in(chunks).len(),
        forall|k: int| 0 <= k < outputs.len() ==> !(#[trigger] outputs[k]).needs_approval,
    ensures
        ({
            let inputs = seq![InputModel::ModelOpened] + as_read(chunks) + seq![InputModel::StreamClosed] + as_run(
                outputs,
            ) + seq![InputModel::NotAborted, InputModel::SteeringEmpty];
            let calls = crate::agent::run::calls_in(chunks);
            let n = s.history.len() as int;
            &&& crate::agent::agent_loop::next_action(after(s, inputs)) matches ActionModel::CallModel { history }
            &&& history.len() == n + 1 + calls.len()
            &&& s.history.is_prefix_of(history)
            &&& history[n] == (MessageModel::Assistant {
                content: crate::agent::run::text_in(chunks),
                tool_calls: Some(calls),
            })
            &&& forall|k: int|
                0 <= k < calls.len() ==> #[trigger] history[n + 1 + k] == (MessageModel::Tool {
                    content: outputs[k].content,
                    tool_call_id: calls[k].id,
                })
        }),
{
    lemma_round_of_tools(s, chunks, outputs);
    let round = seq![InputModel::ModelOpened] + as_read(chunks) + seq![InputModel::StreamClosed] + as_run(outputs);
    let next = after(s, round);
    let nothing = Seq::<SteeringModel>::empty();
    lemma_model_is_asked_with_everything(next, nothing, InputModel::SteeringEmpty);
    let again = seq![InputModel::NotAborted, InputModel::SteeringEmpty];
    assert(seq![InputModel::NotAborted] + as_said(nothing) + seq![InputModel::SteeringEmpty] =~= again);
    lemma_both(s, round, again);
    assert(next.history + crate::agent::run::injected_in(nothing) =~= next.history);
    assert(s.history =~= next.history.subrange(0, s.history.len() as int));
}

// ---------------------------------------------------------------------------
// What does not matter
// ---------------------------------------------------------------------------

/// Whether a run waits for a report of this kind.
pub open spec fn waits_for(s: LoopModel, i: InputModel) -> bool {
    match s.phase {
        PhaseModel::CheckingAbort => i is Aborted || i is NotAborted,
        PhaseModel::Draining => i is Steering || i is SteeringEmpty || i is SteeringClosed,
        PhaseModel::CallingModel => i is ModelOpened || i is ModelRefused,
        PhaseModel::Streaming(_) => i is Chunk || i is StreamClosed || i is StreamFailed || i is Aborted,
        PhaseModel::RunningTool { .. } => i is ToolFinished,
        PhaseModel::AwaitingApproval { .. } => i is Steering || i is SteeringClosed || i is Aborted,
        PhaseModel::RunningApproved { .. } => i is ToolFinished,
        PhaseModel::Finished => false,
    }
}

/// A report that the run does not wait for changes nothing.
pub proof fn lemma_other_reports_change_nothing(s: LoopModel, i: InputModel)
    requires
        !waits_for(s, i),
    ensures
        ({
            let next = crate::agent::agent_loop::step(s, i);
            next.state == s && next.events.len() == 0 && next.reinjected.len() == 0
        }),
{
}

/// What is to be done next fits what the run waits for: as long as it is not over it asks for
/// something, and it asks for nothing else than what brings it on.
pub proof fn lemma_what_is_done_next(s: LoopModel)
    ensures
        ({
            let a = crate::agent::agent_loop::next_action(s);
            &&& a is Stop <==> s.phase is Finished
            &&& a is PollAbort <==> s.phase is CheckingAbort
            &&& a is PollSteering <==> s.phase is Draining
            &&& a is NextChunk <==> s.phase is Streaming
            &&& a is AwaitSteering <==> s.phase is AwaitingApproval
            &&& s.phase is CallingModel ==> a == (ActionModel::CallModel { history: s.history })
            &&& s.phase matches PhaseModel::RunningTool { calls, index } ==> a == (ActionModel::RunTool {
                call: calls[index],
            })
            &&& s.phase matches PhaseModel::RunningApproved { calls, index } ==> a == (ActionModel::ApproveAndRunTool {
                call: calls[index],
            })
        }),
{
}

/// A chunk changes only what has been read of the reply: its text is shown as it comes and put
/// behind the text before, a call is put behind the calls before, and the last reason and
/// tokens count.
pub proof fn lemma_chunk_is_read(s: LoopModel, p: crate::agent::agent_loop::ProgressModel, c: ChunkModel)
    requires
        s.phase == PhaseModel::Streaming(p),
    ensures
        ({
            let next = crate::agent::agent_loop::step(s, InputModel::Chunk(c));
            &&& next.state == (LoopModel { phase: next.state.phase, ..s })
            &&& next.state.phase matches PhaseModel::Streaming(q)
            &&& c matches ChunkModel::Text(t) ==> next.events == seq![EventModel::Text(t)] && q.content == p.content + t
            &&& c !is Text ==> next.events.len() == 0 && q.content == p.content
            &&& c matches ChunkModel::ToolUse { id, name, input } ==> q.tool_requests == p.tool_requests.push(
                ToolCallModel { id, name, input },
            )
            &&& c !is ToolUse ==> q.tool_requests == p.tool_requests
            &&& c matches ChunkModel::Finished { stop_reason, usage } ==> q.stop_reason == Some(stop_reason) && q.usage
                == usage
            &&& c !is Finished ==> q.stop_reason == p.stop_reason && q.usage == p.usage
        }),
{
}

/// Tokens can be counted as long as their sums can be held.
pub proof fn lemma_tokens_can_be_counted(s: LoopModel, i: InputModel)
    ensures
        crate::agent::agent_loop::countable(s, i) <==> (s.phase is Streaming && (i is StreamClosed || i is StreamFailed
            || i is Aborted) ==> s.input_tokens + s.phase->Streaming_0.usage.input_tokens <= u64::MAX && s.output_tokens
            + s.phase->Streaming_0.usage.output_tokens <= u64::MAX),
{
}

} // verus!
