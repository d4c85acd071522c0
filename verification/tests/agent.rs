//! Runs of the agent, driven with a language model and tools that are given.

use std::collections::VecDeque;

use agent_tutorial::agent::agent::Agent;
use agent_tutorial::agent::agent_loop::{
    execute_tool, AgentLoop, LoopAction, LoopInput, StepOutput, StreamEnd, StreamOutcome, StreamProgress,
};
use agent_tutorial::agent::approval::{wait_for_approval, ApprovalAction};
use agent_tutorial::agent::config::AgentConfig;
use agent_tutorial::agent::event::{AgentEvent, AgentResult};
use agent_tutorial::agent::event_stream::{EventStream, NextEvent};
use agent_tutorial::agent::handle::{ApprovalDecision, SteeringMessage};
use agent_tutorial::ai::message::{Message, Role, ToolCallRequest};
use agent_tutorial::ai::stream::{StopReason, StreamChunk, Usage};
use agent_tutorial::json::Json;
use agent_tutorial::tool::output::ToolOutput;

// ---------------------------------------------------------------------------
// A driver
// ---------------------------------------------------------------------------

/// What a run is given.
struct Script {
    replies: VecDeque<Vec<LoopInput>>,
    steering: VecDeque<SteeringMessage>,
    outputs: VecDeque<Option<ToolOutput>>,
    abort_at_round: Option<usize>,
    rounds: usize,
}

impl Script {
    fn new(replies: Vec<Vec<StreamChunk>>) -> Script {
        Script {
            replies: replies
                .into_iter()
                .map(|chunks| chunks.into_iter().map(LoopInput::Chunk).collect())
                .collect(),
            steering: VecDeque::new(),
            outputs: VecDeque::new(),
            abort_at_round: None,
            rounds: 0,
        }
    }
}

/// Echoes the message in its input.
fn echo(call: &ToolCallRequest) -> Option<ToolOutput> {
    if call.name != "echo" {
        return None;
    }
    let message = call.input.get_str("message").unwrap_or("no message");
    Some(ToolOutput::ok(format!("Echo: {message}")))
}

/// Runs to the end and returns all events.
fn drive(begin: (AgentLoop, StepOutput), script: &mut Script) -> (AgentLoop, Vec<AgentEvent>) {
    let (mut run, first) = begin;
    let mut events = first.events;
    let mut reply: VecDeque<LoopInput> = VecDeque::new();
    loop {
        let input = match run.action() {
            LoopAction::PollAbort => {
                script.rounds += 1;
                if script.abort_at_round == Some(script.rounds) {
                    LoopInput::Aborted
                } else {
                    LoopInput::NotAborted
                }
            }
            LoopAction::PollSteering => match script.steering.pop_front() {
                Some(m) => LoopInput::Steering(m),
                None => LoopInput::SteeringEmpty,
            },
            LoopAction::CallModel { .. } => match script.replies.pop_front() {
                Some(r) => {
                    reply = r.into();
                    LoopInput::ModelOpened
                }
                None => LoopInput::ModelRefused("no reply".to_string()),
            },
            LoopAction::NextChunk => reply.pop_front().unwrap_or(LoopInput::StreamClosed),
            LoopAction::RunTool { call } | LoopAction::ApproveAndRunTool { call } => {
                let output = script.outputs.pop_front().unwrap_or_else(|| echo(call));
                LoopInput::ToolFinished(output)
            }
            LoopAction::AwaitSteering => match script.steering.pop_front() {
                Some(m) => LoopInput::Steering(m),
                None => LoopInput::SteeringClosed,
            },
            LoopAction::Stop => break,
        };
        assert!(run.can_count(&input));
        let out = run.step(input);
        events.extend(out.events);
        for m in out.reinjected {
            script.steering.push_back(SteeringMessage::inject(m));
        }
    }
    (run, events)
}

/// One turn of an agent, as the program runs it.
fn turn(agent: &mut Agent<()>, input: &str, script: &mut Script) -> Vec<AgentEvent> {
    let (run, events) = drive(agent.run_stream(input, &AgentConfig::default()), script);
    agent.finish(run);
    events
}

fn text(t: &str) -> StreamChunk {
    StreamChunk::Text(t.to_string())
}

fn finished(stop_reason: StopReason) -> StreamChunk {
    StreamChunk::Finished { stop_reason, usage: Usage::default() }
}

fn counted(stop_reason: StopReason, input_tokens: u64, output_tokens: u64) -> StreamChunk {
    StreamChunk::Finished {
        stop_reason,
        usage: Usage { input_tokens, output_tokens, extra: Vec::new() },
    }
}

fn tool_use(id: &str, name: &str, input: &str) -> StreamChunk {
    StreamChunk::ToolUse {
        id: id.to_string(),
        name: name.to_string(),
        input: Json::parse(input).unwrap(),
    }
}

fn hello() -> Vec<Vec<StreamChunk>> {
    vec![vec![text("Hello, "), text("world!"), finished(StopReason::EndTurn)]]
}

fn call(id: &str) -> ToolCallRequest {
    ToolCallRequest { id: id.to_string(), name: "echo".to_string(), input: Json::Null }
}

/// Events in words.
fn told(events: &[AgentEvent]) -> Vec<String> {
    events
        .iter()
        .map(|e| match e {
            AgentEvent::Text(t) => format!("text {t}"),
            AgentEvent::ToolRequest { id, name, .. } => format!("request {id} {name}"),
            AgentEvent::ToolResponse { id, content, is_error } => format!("response {id} {content} {is_error}"),
            AgentEvent::ApprovalRequired { tool_call_id, tool_name, path, message } => {
                format!("approval {tool_call_id} {tool_name} {path} {message}")
            }
            AgentEvent::TurnEnd { usage } => format!("turn end {} {}", usage.input_tokens, usage.output_tokens),
            AgentEvent::Error { message, recoverable } => format!("error {message} {recoverable}"),
            AgentEvent::Done { messages } => format!("done {}", messages.len()),
        })
        .collect()
}

fn said(messages: &[Message]) -> Vec<String> {
    messages.iter().map(|m| format!("{:?} {}", m.role(), m.content())).collect()
}

// ---------------------------------------------------------------------------
// Turns
// ---------------------------------------------------------------------------

#[test]
fn test_run_stream_returns_text_events() {
    let mut agent = Agent::new((), "test system prompt".to_string());
    let events = turn(&mut agent, "hello", &mut Script::new(hello()));
    let mut texts = Vec::new();
    let mut got_done = false;
    for event in events {
        match event {
            AgentEvent::Text(t) => texts.push(t),
            AgentEvent::Done { .. } => got_done = true,
            _ => {}
        }
    }
    assert_eq!(texts, vec!["Hello, ", "world!"]);
    assert!(got_done);
}

#[test]
fn test_run_stream_done_contains_messages() {
    let mut agent = Agent::new((), "test".to_string());
    let events = turn(&mut agent, "hello", &mut Script::new(hello()));
    let mut done_messages = None;
    for event in events {
        if let AgentEvent::Done { messages } = event {
            done_messages = Some(messages);
        }
    }
    let messages = done_messages.expect("should have received Done event");
    assert!(messages.len() >= 2, "expected at least 2 messages, got {}", messages.len());
    assert_eq!(said(&messages), vec!["System test", "User hello", "Assistant Hello, world!"]);
}

#[test]
fn test_run_stream_abort() {
    let agent_loop = AgentLoop::start(vec![Message::user("hello")], 25);
    let (mut run, _) = agent_loop;
    let mut events = Vec::new();
    for input in [
        LoopInput::NotAborted,
        LoopInput::SteeringEmpty,
        LoopInput::ModelOpened,
        LoopInput::Chunk(text("starting...")),
        LoopInput::Aborted,
    ] {
        events.extend(run.step(input).events);
    }
    assert!(!events.is_empty());
    assert!(matches!(run.action(), LoopAction::Stop));
    let got_done = events.iter().any(|e| matches!(e, AgentEvent::Done { .. }));
    assert!(got_done, "stream should always end with a Done event");
    assert_eq!(
        told(&events),
        vec!["text starting...", "error Agent aborted by user false", "done 2"]
    );
    assert_eq!(said(run.history()), vec!["User hello", "Assistant starting..."]);
}

#[test]
fn test_history_auto_writeback_after_stream() {
    let mut agent = Agent::new((), "test system prompt".to_string());
    let before = agent.history();
    assert_eq!(before.len(), 1);
    assert_eq!(before[0].role(), Role::System);

    turn(&mut agent, "hello", &mut Script::new(hello()));

    let after = agent.history();
    assert!(
        after.len() >= 3,
        "expected at least 3 messages after auto-writeback, got {}",
        after.len()
    );
    assert_eq!(after[0].role(), Role::System);
    assert_eq!(after[1].role(), Role::User);
    assert_eq!(after[2].role(), Role::Assistant);
}

#[test]
fn test_history_accumulates_across_turns() {
    let mut agent = Agent::new((), "test".to_string());
    turn(&mut agent, "first message", &mut Script::new(hello()));
    let first_len = agent.history().len();
    assert!(first_len >= 2, "expected >= 2 messages after first turn");

    turn(&mut agent, "second message", &mut Script::new(hello()));
    let after_second = agent.history();
    assert!(
        after_second.len() > first_len,
        "expected more messages after second turn ({} > {})",
        after_second.len(),
        first_len
    );
    let user_messages: Vec<_> = after_second.iter().filter(|m| m.role() == Role::User).collect();
    assert_eq!(user_messages.len(), 2);
}

#[test]
fn test_tool_use_executes_tool_and_loops() {
    let mut agent = Agent::new((), "test".to_string());
    let mut script = Script::new(vec![
        vec![
            text("Let me check..."),
            tool_use("call_1", "echo", r#"{"message": "hello"}"#),
            finished(StopReason::ToolUse),
        ],
        vec![text("Done!"), finished(StopReason::EndTurn)],
    ]);
    let events = turn(&mut agent, "use the echo tool", &mut script);

    let tool_requests: Vec<_> = events
        .iter()
        .filter_map(|e| match e {
            AgentEvent::ToolRequest { id, name, .. } => Some((id.clone(), name.clone())),
            _ => None,
        })
        .collect();
    assert_eq!(tool_requests.len(), 1);
    assert_eq!(tool_requests[0].0, "call_1");
    assert_eq!(tool_requests[0].1, "echo");

    let tool_responses: Vec<_> = events
        .iter()
        .filter_map(|e| match e {
            AgentEvent::ToolResponse { id, content, .. } => Some((id.clone(), content.clone())),
            _ => None,
        })
        .collect();
    assert_eq!(tool_responses.len(), 1);
    assert_eq!(tool_responses[0].0, "call_1");
    assert!(tool_responses[0].1.contains("Echo: hello"));

    assert!(
        events.iter().any(|e| matches!(e, AgentEvent::Done { .. })),
        "should have a Done event"
    );

    let history = agent.history();
    let assistant_msgs: Vec<_> = history.iter().filter(|m| m.role() == Role::Assistant).collect();
    assert!(
        assistant_msgs.len() >= 2,
        "expected >= 2 assistant messages, got {}",
        assistant_msgs.len()
    );
    assert_eq!(
        told(&events),
        vec![
            "text Let me check...",
            "request call_1 echo",
            "response call_1 Echo: hello false",
            "text Done!",
            "turn end 0 0",
            "done 5",
        ]
    );
}

#[test]
fn test_multiple_tool_calls_in_single_round() {
    let mut agent = Agent::new((), "test".to_string());
    let mut script = Script::new(vec![
        vec![
            tool_use("call_1", "echo", r#"{"message": "first"}"#),
            tool_use("call_2", "echo", r#"{"message": "second"}"#),
            finished(StopReason::ToolUse),
        ],
        vec![text("All done!"), finished(StopReason::EndTurn)],
    ]);
    let events = turn(&mut agent, "use two tools", &mut script);
    let tool_requests: Vec<_> = events
        .iter()
        .filter_map(|e| match e {
            AgentEvent::ToolRequest { id, .. } => Some(id.clone()),
            _ => None,
        })
        .collect();
    assert_eq!(tool_requests.len(), 2);
    let tool_responses: Vec<_> = events
        .iter()
        .filter_map(|e| match e {
            AgentEvent::ToolResponse { id, .. } => Some(id.clone()),
            _ => None,
        })
        .collect();
    assert_eq!(tool_responses.len(), 2);
    assert_eq!(tool_responses, vec!["call_1", "call_2"]);
}

#[test]
fn test_multi_round_tool_loop() {
    let mut agent = Agent::new((), "test".to_string());
    let mut script = Script::new(vec![
        vec![
            tool_use("call_1", "echo", r#"{"message": "round1"}"#),
            finished(StopReason::ToolUse),
        ],
        vec![
            tool_use("call_2", "echo", r#"{"message": "round2"}"#),
            finished(StopReason::ToolUse),
        ],
        vec![text("Finished after 2 tool calls."), finished(StopReason::EndTurn)],
    ]);
    let events = turn(&mut agent, "multi-round", &mut script);
    let tool_request_count = events.iter().filter(|e| matches!(e, AgentEvent::ToolRequest { .. })).count();
    assert_eq!(tool_request_count, 2, "expected 2 tool requests");
    let turn_end_count = events.iter().filter(|e| matches!(e, AgentEvent::TurnEnd { .. })).count();
    assert_eq!(turn_end_count, 1, "expected 1 TurnEnd event");
    let history = agent.history();
    assert!(
        history.len() >= 7,
        "expected >= 7 messages in history, got {}",
        history.len()
    );
}

#[test]
fn test_unknown_tool_returns_error() {
    let mut agent = Agent::new((), "test".to_string());
    let mut script = Script::new(vec![
        vec![tool_use("call_1", "nonexistent_tool", "{}"), finished(StopReason::ToolUse)],
        vec![text("OK understood."), finished(StopReason::EndTurn)],
    ]);
    let events = turn(&mut agent, "use unknown tool", &mut script);
    let tool_responses: Vec<_> = events
        .iter()
        .filter_map(|e| match e {
            AgentEvent::ToolResponse { content, is_error, .. } if *is_error => Some(content.clone()),
            _ => None,
        })
        .collect();
    assert_eq!(tool_responses.len(), 1);
    assert!(tool_responses[0].contains("未知工具"));
    assert_eq!(tool_responses[0], "未知工具: nonexistent_tool");
    let known = execute_tool("echo", Some(ToolOutput::ok("x".to_string())));
    assert_eq!(known.content, "x");
}

#[test]
fn test_stream_error_reports_error_event() {
    let mut agent = Agent::new((), "test".to_string());
    let mut script = Script::new(vec![]);
    script.replies.push_back(vec![LoopInput::StreamFailed(
        "API error (500): connection lost".to_string(),
    )]);
    let events = turn(&mut agent, "hello", &mut script);
    let error_events: Vec<_> = events
        .iter()
        .filter_map(|e| match e {
            AgentEvent::Error { message, .. } => Some(message.clone()),
            _ => None,
        })
        .collect();
    assert!(
        error_events.iter().any(|m| m.contains("Provider stream error")),
        "expected a stream error event, got errors: {:?}",
        error_events
    );
    assert!(
        events.iter().any(|e| matches!(e, AgentEvent::Done { .. })),
        "should still have a Done event after error"
    );
    assert_eq!(error_events, vec!["Provider stream error: API error (500): connection lost"]);
}

// ---------------------------------------------------------------------------
// Ends of a run
// ---------------------------------------------------------------------------

#[test]
fn a_model_that_cannot_be_asked_ends_the_run() {
    let mut script = Script::new(vec![]);
    let (run, events) = drive(AgentLoop::start(vec![Message::user("hi")], 3), &mut script);
    assert_eq!(told(&events), vec!["error Provider error: no reply false", "done 1"]);
    let result = run.result().unwrap();
    assert_eq!(result.total_turns, 0);
    assert_eq!(result.messages.len(), 1);
}

#[test]
fn an_abort_between_rounds_ends_the_run() {
    let mut script = Script::new(vec![
        vec![tool_use("c", "echo", "{}"), counted(StopReason::ToolUse, 5, 6)],
        vec![text("never"), finished(StopReason::EndTurn)],
    ]);
    script.abort_at_round = Some(2);
    let (run, events) = drive(AgentLoop::start(vec![], 9), &mut script);
    assert_eq!(
        told(&events),
        vec![
            "request c echo",
            "response c Echo: no message false",
            "error Agent aborted by user false",
            "done 2",
        ]
    );
    let result = run.result().unwrap();
    assert_eq!(result.total_turns, 1);
    assert_eq!((result.usage.input_tokens, result.usage.output_tokens), (5, 6));
}

#[test]
fn a_reply_without_a_reason_for_its_end_is_an_error() {
    let mut script = Script::new(vec![vec![text("half")]]);
    let (run, events) = drive(AgentLoop::start(vec![], 3), &mut script);
    assert_eq!(
        told(&events),
        vec!["text half", "error Stream ended without a stop reason false", "done 1"]
    );
    assert_eq!(said(run.history()), vec!["Assistant half"]);
}

#[test]
fn too_many_rounds_end_the_run() {
    let asking = || vec![tool_use("c", "echo", "{}"), counted(StopReason::ToolUse, 1, 2)];
    let mut script = Script::new(vec![asking(), asking(), asking()]);
    let (run, events) = drive(AgentLoop::start(vec![], 2), &mut script);
    assert_eq!(
        told(&events),
        vec![
            "request c echo",
            "response c Echo: no message false",
            "request c echo",
            "response c Echo: no message false",
            "error Maximum tool rounds exceeded (2) false",
            "done 4",
        ]
    );
    assert_eq!(script.replies.len(), 1);
    let result = run.result().unwrap();
    assert_eq!(result.total_turns, 2);
    assert_eq!((result.usage.input_tokens, result.usage.output_tokens), (2, 4));
}

#[test]
fn a_run_without_rounds_is_over_at_once() {
    let (run, out) = AgentLoop::start(vec![Message::user("hi")], 0);
    assert_eq!(told(&out.events), vec!["done 1"]);
    assert!(matches!(run.action(), LoopAction::Stop));
    assert!(run.result().is_some());
}

#[test]
fn nothing_comes_of_a_run_that_is_over() {
    let (mut run, _) = AgentLoop::start(vec![], 0);
    for input in [
        LoopInput::Aborted,
        LoopInput::ModelOpened,
        LoopInput::Chunk(text("x")),
        LoopInput::ToolFinished(None),
        LoopInput::Steering(SteeringMessage::inject(Message::user("x"))),
    ] {
        let out = run.step(input);
        assert!(out.events.is_empty() && out.reinjected.is_empty());
    }
    assert!(run.history().is_empty());
}

#[test]
fn reports_that_a_run_does_not_wait_for_are_ignored() {
    let (mut run, _) = AgentLoop::start(vec![], 3);
    assert!(run.step(LoopInput::Chunk(text("x"))).events.is_empty());
    assert!(matches!(run.action(), LoopAction::PollAbort));
    assert!(run.result().is_none());
    run.step(LoopInput::NotAborted);
    run.step(LoopInput::ModelOpened);
    assert!(matches!(run.action(), LoopAction::PollSteering));
    run.step(LoopInput::SteeringEmpty);
    run.step(LoopInput::NotAborted);
    assert!(matches!(run.action(), LoopAction::CallModel { .. }));
    run.step(LoopInput::ModelOpened);
    run.step(LoopInput::ToolFinished(None));
    assert!(matches!(run.action(), LoopAction::NextChunk));
}

#[test]
fn asking_for_tools_without_naming_one_ends_the_turn() {
    let mut script = Script::new(vec![
        vec![text("hm"), finished(StopReason::ToolUse)],
        vec![text("ok"), finished(StopReason::EndTurn)],
    ]);
    let (run, events) = drive(AgentLoop::start(vec![], 5), &mut script);
    assert_eq!(told(&events), vec!["text hm", "turn end 0 0", "done 1"]);
    assert_eq!(run.result().unwrap().total_turns, 1);
    assert_eq!(said(run.history()), vec!["Assistant hm"]);
}

#[test]
fn tokens_of_the_rounds_add_up() {
    let mut script = Script::new(vec![
        vec![tool_use("c", "echo", "{}"), counted(StopReason::ToolUse, 10, 1)],
        vec![text("x"), counted(StopReason::MaxTokens, 20, 2)],
    ]);
    let (run, events) = drive(AgentLoop::start(vec![], 5), &mut script);
    assert!(told(&events).contains(&"turn end 30 3".to_string()));
    let usage = run.result().unwrap().usage;
    assert_eq!((usage.input_tokens, usage.output_tokens), (30, 3));
    assert!(usage.extra.is_empty());
}

#[test]
fn tokens_that_cannot_be_counted_are_noticed() {
    let (mut run, _) = AgentLoop::start(vec![], 5);
    for input in [
        LoopInput::NotAborted,
        LoopInput::SteeringEmpty,
        LoopInput::ModelOpened,
        LoopInput::Chunk(tool_use("c", "echo", "{}")),
        LoopInput::Chunk(counted(StopReason::ToolUse, u64::MAX, 0)),
        LoopInput::StreamClosed,
        LoopInput::ToolFinished(None),
        LoopInput::NotAborted,
        LoopInput::SteeringEmpty,
        LoopInput::ModelOpened,
        LoopInput::Chunk(counted(StopReason::EndTurn, 1, 0)),
    ] {
        assert!(run.can_count(&input));
        run.step(input);
    }
    assert!(!run.can_count(&LoopInput::StreamClosed));
    assert!(!run.can_count(&LoopInput::StreamFailed("x".to_string())));
    assert!(!run.can_count(&LoopInput::Aborted));
    assert!(run.can_count(&LoopInput::Chunk(text("x"))));
}

// ---------------------------------------------------------------------------
// Steering and consent
// ---------------------------------------------------------------------------

fn approval() -> Option<ToolOutput> {
    Some(ToolOutput::approval("may I?".to_string(), "/etc/hosts".to_string()))
}

fn two_calls() -> Vec<Vec<StreamChunk>> {
    vec![
        vec![
            tool_use("a", "echo", r#"{"message": "1"}"#),
            tool_use("b", "echo", r#"{"message": "2"}"#),
            finished(StopReason::ToolUse),
        ],
        vec![text("ok"), finished(StopReason::EndTurn)],
    ]
}

#[test]
fn messages_from_outside_join_the_conversation() {
    let mut script = Script::new(hello());
    script.steering.push_back(SteeringMessage::inject(Message::user("one")));
    script.steering.push_back(SteeringMessage::inject(Message::user("two")));
    let (run, _) = drive(AgentLoop::start(vec![Message::user("hi")], 3), &mut script);
    assert_eq!(
        said(run.history()),
        vec!["User hi", "User one", "User two", "Assistant Hello, world!"]
    );
}

#[test]
fn an_answer_that_nobody_asked_for_is_passed_over() {
    let mut script = Script::new(hello());
    script.steering.push_back(SteeringMessage::inject(Message::user("before")));
    script.steering.push_back(SteeringMessage::approve("x".to_string()));
    script.steering.push_back(SteeringMessage::deny("y".to_string(), "no".to_string()));
    script.steering.push_back(SteeringMessage::inject(Message::user("later")));
    let (run, _) = drive(AgentLoop::start(vec![], 3), &mut script);
    assert_eq!(said(run.history()), vec!["User before", "User later", "Assistant Hello, world!"]);
    assert!(script.steering.is_empty());
}

#[test]
fn a_run_goes_on_when_nobody_can_say_anything() {
    let (mut run, _) = AgentLoop::start(vec![], 3);
    run.step(LoopInput::NotAborted);
    run.step(LoopInput::Steering(SteeringMessage::inject(Message::user("last"))));
    run.step(LoopInput::SteeringClosed);
    assert!(matches!(run.action(), LoopAction::CallModel { history } if said(history) == vec!["User last"]));
}

/// Brings a run with two tool calls to the wait for consent to the first.
fn until_wait() -> AgentLoop {
    let (mut run, _) = AgentLoop::start(vec![], 3);
    run.step(LoopInput::NotAborted);
    run.step(LoopInput::SteeringEmpty);
    run.step(LoopInput::ModelOpened);
    for chunk in two_calls().remove(0) {
        run.step(LoopInput::Chunk(chunk));
    }
    run.step(LoopInput::StreamClosed);
    run.step(LoopInput::ToolFinished(approval()));
    assert!(matches!(run.action(), LoopAction::AwaitSteering));
    run
}

#[test]
fn a_tool_with_consent_runs_again() {
    let mut run = until_wait();
    for message in [
        SteeringMessage::approve("other".to_string()),
        SteeringMessage::inject(Message::user("one")),
        SteeringMessage::inject(Message::user("two")),
    ] {
        let out = run.step(LoopInput::Steering(message));
        assert!(out.events.is_empty() && out.reinjected.is_empty());
        assert!(matches!(run.action(), LoopAction::AwaitSteering));
    }
    let out = run.step(LoopInput::Steering(SteeringMessage::approve("a".to_string())));
    assert_eq!(said(&out.reinjected), vec!["User one", "User two"]);
    assert!(out.events.is_empty());
    assert!(matches!(run.action(), LoopAction::ApproveAndRunTool { call } if call.id == "a"));
    let output = ToolOutput::ok("contents".to_string());
    let out = run.step(LoopInput::ToolFinished(Some(output)));
    assert_eq!(told(&out.events), vec!["response a contents false", "request b echo"]);
    assert!(matches!(run.action(), LoopAction::RunTool { call } if call.id == "b"));
}

#[test]
fn consent_is_asked_for_before_a_tool_runs() {
    let mut script = Script::new(two_calls());
    script.outputs.push_back(approval());
    let (run, events) = drive(AgentLoop::start(vec![], 3), &mut script);
    assert_eq!(
        told(&events),
        vec![
            "request a echo",
            "approval a echo /etc/hosts may I?",
            "error Agent aborted while waiting for approval false",
            "done 3",
        ]
    );
    assert_eq!(run.history().len(), 3);
}

#[test]
fn a_refused_tool_does_not_run() {
    let mut run = until_wait();
    let out = run.step(LoopInput::Steering(SteeringMessage::deny("a".to_string(), String::new())));
    assert_eq!(told(&out.events), vec!["response a 用户拒绝了此操作 true", "request b echo"]);

    let mut run = until_wait();
    let out = run.step(LoopInput::Steering(SteeringMessage::deny("a".to_string(), "no".to_string())));
    assert_eq!(told(&out.events), vec!["response a 用户拒绝了此操作: no true", "request b echo"]);
    assert!(matches!(run.action(), LoopAction::RunTool { call } if call.id == "b"));
}

#[test]
fn an_abort_during_the_wait_answers_all_calls() {
    for end in [LoopInput::Aborted, LoopInput::SteeringClosed] {
        let mut run = until_wait();
        run.step(LoopInput::Steering(SteeringMessage::inject(Message::user("kept"))));
        let out = run.step(end);
        assert_eq!(
            told(&out.events),
            vec!["error Agent aborted while waiting for approval false", "done 3"]
        );
        assert_eq!(said(&out.reinjected), vec!["User kept"]);
        let answers: Vec<(String, String)> = run
            .history()
            .iter()
            .filter_map(|m| match m {
                Message::Tool { content, tool_call_id } => Some((tool_call_id.clone(), content.clone())),
                _ => None,
            })
            .collect();
        let text = "Aborted: agent was stopped before this tool could complete".to_string();
        assert_eq!(answers, vec![("a".to_string(), text.clone()), ("b".to_string(), text)]);
    }
}

#[test]
fn a_request_for_consent_without_a_path() {
    let (mut run, _) = AgentLoop::start(vec![], 1);
    run.step(LoopInput::NotAborted);
    run.step(LoopInput::SteeringEmpty);
    run.step(LoopInput::ModelOpened);
    run.step(LoopInput::Chunk(tool_use("a", "t", "{}")));
    run.step(LoopInput::Chunk(finished(StopReason::EndTurn)));
    run.step(LoopInput::StreamClosed);
    let out = run.step(LoopInput::ToolFinished(Some(ToolOutput {
        content: "m".to_string(),
        is_error: false,
        needs_approval: true,
        approval_path: None,
    })));
    assert_eq!(told(&out.events), vec!["approval a t  m"]);
}

#[test]
fn each_tool_call_is_followed_by_its_answer() {
    let mut script = Script::new(two_calls());
    let (run, _) = drive(AgentLoop::start(vec![], 3), &mut script);
    let history = run.history();
    for (i, m) in history.iter().enumerate() {
        if let Message::Assistant { tool_calls: Some(calls), .. } = m {
            for (k, call) in calls.iter().enumerate() {
                match &history[i + 1 + k] {
                    Message::Tool { tool_call_id, .. } => assert_eq!(tool_call_id, &call.id),
                    _ => panic!("no answer"),
                }
            }
        }
    }
    assert_eq!(history.len(), 4);
}

#[test]
fn waiting_for_an_answer() {
    let mut injected = Vec::new();
    let inject = SteeringMessage::inject(Message::user("m"));
    assert!(wait_for_approval("a", inject, &mut injected).is_none());
    assert_eq!(injected.len(), 1);
    let other = SteeringMessage::approve("b".to_string());
    assert!(wait_for_approval("a", other, &mut injected).is_none());
    let yes = SteeringMessage::approve("a".to_string());
    assert!(matches!(wait_for_approval("a", yes, &mut injected), Some(ApprovalAction::Approved)));
    let no = SteeringMessage::ApprovalResponse {
        tool_call_id: "a".to_string(),
        decision: ApprovalDecision::Denied { reason: "r".to_string() }.clone(),
    };
    assert!(matches!(
        wait_for_approval("a", no, &mut injected),
        Some(ApprovalAction::Denied { reason }) if reason == "r"
    ));
    assert_eq!(injected.len(), 1);
}

// ---------------------------------------------------------------------------
// The reply
// ---------------------------------------------------------------------------

fn progress(chunks: Vec<StreamChunk>) -> StreamProgress {
    let mut p = StreamProgress::new();
    for c in chunks {
        p.read(c);
    }
    p
}

#[test]
fn what_is_shown_is_what_is_kept() {
    let mut p = StreamProgress::new();
    let mut shown = String::new();
    for t in ["a", "", "bc", "你"] {
        for e in p.read(text(t)) {
            if let AgentEvent::Text(t) = e {
                shown.push_str(&t);
            }
        }
    }
    assert_eq!(p.content, "abc你");
    assert_eq!(shown, p.content);
}

#[test]
fn outcomes_of_a_reply() {
    let closed = |chunks| progress(chunks).outcome(StreamEnd::Closed);
    assert!(matches!(
        closed(vec![text("t"), finished(StopReason::EndTurn)]),
        StreamOutcome::EndTurn { content, .. } if content == "t"
    ));
    assert!(matches!(
        closed(vec![finished(StopReason::MaxTokens)]),
        StreamOutcome::MaxTokens { .. }
    ));
    assert!(matches!(
        closed(vec![text("t"), finished(StopReason::ToolUse)]),
        StreamOutcome::EndTurn { content, .. } if content == "t"
    ));
    for reason in [StopReason::EndTurn, StopReason::MaxTokens, StopReason::ToolUse] {
        assert!(matches!(
            closed(vec![tool_use("a", "t", "{}"), finished(reason)]),
            StreamOutcome::ToolUse { tool_calls, .. } if tool_calls.len() == 1
        ));
    }
    assert!(matches!(
        progress(vec![text("x"), counted(StopReason::EndTurn, 7, 8)]).outcome(StreamEnd::Aborted),
        StreamOutcome::StreamError { content, error_message, usage }
            if content == "x" && error_message == "Agent aborted by user" && usage.input_tokens == 7
    ));
    let failed = progress(vec![]).outcome(StreamEnd::Failed("e".to_string()));
    assert_eq!(failed.usage().output_tokens, 0);
}

// ---------------------------------------------------------------------------
// The agent between runs
// ---------------------------------------------------------------------------

#[test]
fn an_agent_without_a_prompt_has_said_nothing() {
    let agent = Agent::new(7, String::new());
    assert!(agent.history().is_empty());
    assert_eq!(*agent.model(), 7);
    assert!(!agent.is_running());
}

#[test]
fn a_run_takes_the_conversation_with_it() {
    let mut agent = Agent::new((), "p".to_string());
    let (run, out) = agent.run_stream("go", &AgentConfig { max_tool_rounds: 1 });
    assert!(agent.is_running());
    assert!(agent.history().is_empty());
    assert_eq!(said(run.history()), vec!["System p", "User go"]);
    assert!(out.events.is_empty());
    agent.finish(run);
    assert!(!agent.is_running());
    assert_eq!(said(&agent.history()), vec!["System p", "User go"]);
}

#[test]
fn a_run_that_broke_down_leaves_no_trace() {
    let mut agent = Agent::new((), "p".to_string());
    turn(&mut agent, "first", &mut Script::new(hello()));
    let before = said(&agent.history());
    let (run, _) = agent.run_stream("second", &AgentConfig::default());
    drop(run);
    assert!(agent.history().is_empty());
    agent.recover();
    assert!(!agent.is_running());
    assert_eq!(said(&agent.history()), before);
    turn(&mut agent, "third", &mut Script::new(hello()));
    assert_eq!(
        said(&agent.history()),
        vec![
            "System p",
            "User first",
            "Assistant Hello, world!",
            "User third",
            "Assistant Hello, world!",
        ]
    );
}

#[test]
fn defaults_of_the_agent() {
    assert_eq!(AgentConfig::default().max_tool_rounds, 25);
    let result = AgentResult::default();
    assert!(result.messages.is_empty());
    assert_eq!(result.total_turns, 0);
    assert_eq!(result.usage.input_tokens, 0);
    assert_eq!(result.clone().total_turns, 0);
}

#[test]
fn messages_know_their_role_and_text() {
    let messages = [
        Message::system("s"),
        Message::user("u"),
        Message::assistant("a"),
        Message::tool_result("id", "t"),
    ];
    assert_eq!(said(&messages), vec!["System s", "User u", "Assistant a", "Tool t"]);
    let asking = Message::Assistant {
        content: "x".to_string(),
        tool_calls: Some(vec![call("1")]),
    };
    match asking.clone() {
        Message::Assistant { tool_calls: Some(calls), .. } => assert_eq!(calls[0].id, "1"),
        _ => panic!("no calls"),
    }
}

// ---------------------------------------------------------------------------
// The stream of events
// ---------------------------------------------------------------------------

fn collect<T, R>(stream: &mut EventStream<T, R>) -> Vec<T> {
    let mut items = Vec::new();
    while let NextEvent::Ready(e) = stream.next() {
        items.push(e);
    }
    items
}

#[test]
fn test_push_and_consume() {
    let mut stream = EventStream::<i32, ()>::new();
    stream.push(1);
    stream.push(2);
    stream.push(3);
    stream.close();
    assert_eq!(collect(&mut stream), vec![1, 2, 3]);
    assert_eq!(stream.next(), NextEvent::Ended);
    assert_eq!(stream.next(), NextEvent::Ended);
}

#[test]
fn test_event_stream_push() {
    let mut stream = EventStream::<String, ()>::new();
    assert_eq!(stream.next(), NextEvent::Pending);
    stream.push("hello".to_string());
    stream.push("world".to_string());
    stream.close();
    assert_eq!(collect(&mut stream), vec!["hello", "world"]);
}

#[test]
fn test_subscription_receives_events() {
    let mut stream = EventStream::<String, ()>::new();
    let mut received = Vec::new();
    let sub = stream.subscribe();
    for event in ["hello", "world"] {
        for listener in stream.push(event.to_string()) {
            assert_eq!(listener, sub.index());
            received.push(event);
        }
    }
    assert_eq!(received, vec!["hello", "world"]);
}

#[test]
fn test_subscription_unregister_on_drop() {
    let mut stream = EventStream::<String, ()>::new();
    let mut received = Vec::new();
    let sub = stream.subscribe();
    for _ in stream.push("first".to_string()) {
        received.push("first");
    }
    stream.unsubscribe(sub);
    for _ in stream.push("second".to_string()) {
        received.push("second");
    }
    assert_eq!(received, vec!["first"]);
}

#[test]
fn listeners_are_told_in_their_order() {
    let mut stream = EventStream::<u8, ()>::new();
    let _a = stream.subscribe();
    let b = stream.subscribe();
    let _c = stream.subscribe();
    assert_eq!(stream.push(1), vec![0, 1, 2]);
    stream.unsubscribe(b);
    assert_eq!(stream.push(2), vec![0, 2]);
}

#[test]
fn test_end_with_result() {
    let mut stream = EventStream::<i32, String>::new();
    assert!(!stream.is_done());
    assert!(stream.result().is_none());
    stream.end("final".to_string());
    assert!(stream.is_done());
    assert_eq!(stream.result(), Some(&"final".to_string()));
}
