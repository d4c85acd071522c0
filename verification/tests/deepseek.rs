//! The streamed reply of DeepSeek.

use agent_tutorial::ai::deepseek::stream::{
    json_or_null, parse_stop_reason, parse_tool_input, read_usage, ApiUsage, ChatChunk, ChoiceDelta,
    DeepSeekStreamIterator, DeltaContent, FunctionChunk, PromptTokensDetails, ReplyStep, SseStep, ToolCallChunk,
};
use agent_tutorial::ai::stream::{StopReason, StreamChunk};
use agent_tutorial::json::Json;
use agent_tutorial::provider::StreamChunk as AnyChunk;

fn piece(index: u32, id: Option<&str>, name: Option<&str>, arguments: Option<&str>) -> ToolCallChunk {
    ToolCallChunk {
        index,
        id: id.map(|t| t.to_string()),
        function: FunctionChunk {
            name: name.map(|t| t.to_string()),
            arguments: arguments.map(|t| t.to_string()),
        },
    }
}

fn choice(content: Option<&str>, pieces: Vec<ToolCallChunk>, finish: Option<&str>) -> ChoiceDelta {
    ChoiceDelta {
        delta: DeltaContent {
            content: content.map(|t| t.to_string()),
            tool_calls: if pieces.is_empty() { None } else { Some(pieces) },
        },
        finish_reason: finish.map(|t| t.to_string()),
    }
}

fn document(choices: Vec<ChoiceDelta>) -> ChatChunk {
    ChatChunk { choices, usage: None }
}

fn usage() -> ApiUsage {
    ApiUsage {
        prompt_tokens: 10,
        completion_tokens: 20,
        prompt_tokens_details: Some(PromptTokensDetails { cached_tokens: 3 }),
        prompt_cache_hit_tokens: 4,
        prompt_cache_miss_tokens: 6,
    }
}

fn data(text: &str) -> SseStep {
    SseStep::Data(text.to_string())
}

/// What a step says.
fn told(step: ReplyStep) -> String {
    match step {
        ReplyStep::NeedBytes => "need".to_string(),
        ReplyStep::Document(text) => format!("document {text}"),
        ReplyStep::Chunk(chunk) => said(&chunk),
        ReplyStep::End => "end".to_string(),
    }
}

/// What a chunk says.
fn said(chunk: &StreamChunk) -> String {
    match chunk {
        StreamChunk::Text(text) => format!("text {text}"),
        StreamChunk::ToolUse { id, name, input } => format!("{id} {name} {}", input.to_text()),
        StreamChunk::Finished { stop_reason, usage } => {
            format!("{stop_reason:?} {} {}", usage.input_tokens, usage.output_tokens)
        }
    }
}

// ========== Lines ==========

#[test]
fn lines_are_read_one_by_one() {
    let mut it = DeepSeekStreamIterator::new();
    assert_eq!(it.next_sse_line(false), SseStep::NeedBytes);
    it.push_bytes(&b": ping\n\n  data: {\"a\":1}\r\ndata: x".to_vec());
    assert_eq!(it.next_sse_line(false), data("{\"a\":1}"));
    assert_eq!(it.next_sse_line(false), SseStep::NeedBytes);
    it.push_bytes(&b"y\ndata: [DONE]\ndata: late\n".to_vec());
    assert_eq!(it.next_sse_line(false), data("xy"));
    assert_eq!(it.next_sse_line(false), SseStep::End);
    assert_eq!(it.next_sse_line(false), SseStep::End);
    assert_eq!(it.next_sse_line(true), SseStep::End);
}

#[test]
fn the_last_line_need_not_be_ended() {
    let mut it = DeepSeekStreamIterator::new();
    it.push_bytes(&b"data: tail".to_vec());
    assert_eq!(it.next_sse_line(true), data("tail"));
    assert_eq!(it.next_sse_line(true), SseStep::End);

    for rest in ["", "   ", "event: x", "data: [DONE]", "data:x"] {
        let mut it = DeepSeekStreamIterator::new();
        it.push_bytes(&rest.as_bytes().to_vec());
        assert_eq!(it.next_sse_line(true), SseStep::End, "{rest:?}");
    }
}

#[test]
fn where_the_text_is_cut_does_not_matter() {
    let text = "data: a\n\ndata: b\nevent: c\ndata: d";
    for cut in 0..=text.len() {
        let mut it = DeepSeekStreamIterator::new();
        let mut steps = Vec::new();
        let mut parts = vec![text[..cut].as_bytes().to_vec(), text[cut..].as_bytes().to_vec()].into_iter();
        let mut at_end = false;
        loop {
            match it.next_sse_line(at_end) {
                SseStep::NeedBytes => match parts.next() {
                    Some(p) => it.push_bytes(&p),
                    None => at_end = true,
                },
                SseStep::End => break,
                step => steps.push(step),
            }
        }
        assert_eq!(steps, vec![data("a"), data("b"), data("d")], "{cut}");
    }
}

// ========== Documents ==========

#[test]
fn text_is_handed_out_at_once() {
    let mut it = DeepSeekStreamIterator::new();
    let chunk = it.take_chunk(document(vec![
        choice(Some(""), vec![], None),
        choice(Some("hi"), vec![], Some("stop")),
        choice(Some("lost"), vec![], None),
    ]));
    assert!(matches!(chunk, Some(StreamChunk::Text(t)) if t == "hi"));
    assert_eq!(it.next_sse_line(false), SseStep::NeedBytes);
}

#[test]
fn a_document_may_bring_nothing() {
    let mut it = DeepSeekStreamIterator::new();
    assert!(it.take_chunk(document(vec![])).is_none());
    assert!(it.take_chunk(document(vec![choice(None, vec![], None)])).is_none());
}

#[test]
fn the_end_of_a_reply() {
    let mut it = DeepSeekStreamIterator::new();
    let chunk = it.take_chunk(ChatChunk {
        choices: vec![choice(None, vec![], Some("length"))],
        usage: Some(usage()),
    });
    match chunk {
        Some(StreamChunk::Finished { stop_reason, usage }) => {
            assert_eq!(stop_reason, StopReason::MaxTokens);
            assert_eq!((usage.input_tokens, usage.output_tokens), (10, 20));
        }
        other => panic!("{other:?}"),
    }
    assert_eq!(it.next_sse_line(false), SseStep::End);
    it.push_bytes(&b"data: late\n".to_vec());
    assert!(matches!(it.next(false), ReplyStep::End));
    assert!(it.take_chunk(document(vec![choice(Some("late"), vec![], None)])).is_none());
    assert!(matches!(it.next(true), ReplyStep::End));
}

#[test]
fn an_end_without_tokens() {
    for (reason, stop) in [("stop", "EndTurn 0 0"), ("tool_calls", "ToolUse 0 0"), ("length", "MaxTokens 0 0")] {
        let mut it = DeepSeekStreamIterator::new();
        let chunk = it.take_chunk(document(vec![choice(Some(""), vec![], Some(reason))]));
        assert_eq!(said(&chunk.expect("a chunk")), stop);
        assert_eq!(told(it.next(false)), "end");
    }
}

#[test]
fn steps_of_a_reply() {
    let mut it = DeepSeekStreamIterator::new();
    assert_eq!(told(it.next(false)), "need");
    it.push_bytes(&b"data: one\ndata: [DONE]\ndata: two\n".to_vec());
    assert_eq!(told(it.next(false)), "document one");
    assert_eq!(told(it.next(false)), "end");
    assert_eq!(told(it.next(false)), "end");
}

#[test]
fn a_tool_call_arrives_in_pieces() {
    let mut it = DeepSeekStreamIterator::new();
    let pieces = |p| document(vec![choice(None, p, None)]);
    assert!(it.take_chunk(pieces(vec![piece(0, Some("id"), Some("bash"), Some(""))])).is_none());
    assert!(it.take_chunk(pieces(vec![piece(0, None, None, Some("{\"command\":"))])).is_none());
    assert!(it.take_chunk(pieces(vec![piece(0, None, None, Some(" \"ls\"}"))])).is_none());
    let chunk = it.take_chunk(document(vec![choice(None, vec![], Some("tool_calls"))]));
    match chunk {
        Some(StreamChunk::ToolUse { id, name, input }) => {
            assert_eq!((id.as_str(), name.as_str()), ("id", "bash"));
            assert_eq!(input.to_text(), r#"{"command":"ls"}"#);
        }
        other => panic!("{other:?}"),
    }
    assert_eq!(it.next_sse_line(false), SseStep::End);
    assert_eq!(told(it.next(false)), "ToolUse 0 0");
    assert_eq!(told(it.next(false)), "end");
}

#[test]
fn pieces_find_their_call() {
    let mut it = DeepSeekStreamIterator::new();
    it.take_chunk(document(vec![choice(
        None,
        vec![
            piece(7, Some("x"), Some("first"), Some("[1")),
            piece(3, Some("y"), Some("second"), Some("[2")),
            piece(7, None, None, Some(",1]")),
            piece(3, None, None, Some(",2]")),
        ],
        None,
    )]));
    let chunk = it.take_chunk(ChatChunk {
        choices: vec![choice(None, vec![], Some("tool_calls"))],
        usage: Some(usage()),
    });
    assert_eq!(said(&chunk.expect("a chunk")), "x first [1,1]");
    it.push_bytes(&b"data: [DONE]\n".to_vec());
    assert_eq!(told(it.next(false)), "y second [2,2]");
    assert_eq!(told(it.next(false)), "ToolUse 10 20");
    assert_eq!(told(it.next(false)), "end");
    assert_eq!(told(it.next(true)), "end");
}

#[test]
fn calls_that_are_not_complete_are_passed_over() {
    let mut it = DeepSeekStreamIterator::new();
    let chunk = it.take_chunk(document(vec![choice(
        None,
        vec![
            piece(0, Some("a"), None, Some("{}")),
            piece(1, Some("b"), Some("second"), Some("[]")),
            piece(2, None, Some("third"), None),
            piece(3, Some("d"), Some("fourth"), None),
        ],
        Some("stop"),
    )]));
    assert_eq!(said(&chunk.expect("a chunk")), "b second []");
    assert!(it.take_chunk(document(vec![choice(Some("late"), vec![], None)])).is_none());
    assert_eq!(told(it.next(true)), "d fourth {}");
    assert_eq!(told(it.next(true)), "EndTurn 0 0");
    assert_eq!(told(it.next(true)), "end");
}

#[test]
fn a_tool_call_without_a_name_is_dropped() {
    let mut it = DeepSeekStreamIterator::new();
    let chunk = it.take_chunk(document(vec![choice(
        None,
        vec![piece(0, Some("id"), None, None)],
        Some("tool_calls"),
    )]));
    assert!(matches!(
        chunk,
        Some(StreamChunk::Finished { stop_reason: StopReason::ToolUse, .. })
    ));
}

#[test]
fn later_pieces_may_correct_the_name() {
    let mut it = DeepSeekStreamIterator::new();
    let chunk = it.take_chunk(document(vec![choice(
        None,
        vec![piece(0, Some("a"), Some("b"), None), piece(0, Some("c"), Some("d"), None)],
        Some("stop"),
    )]));
    match chunk {
        Some(StreamChunk::ToolUse { id, name, input }) => {
            assert_eq!((id.as_str(), name.as_str()), ("c", "d"));
            assert_eq!(input.to_text(), "{}");
        }
        other => panic!("{other:?}"),
    }
}

// ========== Parts ==========

#[test]
fn reasons_for_stopping() {
    let cases = [
        ("stop", StopReason::EndTurn),
        ("end_turn", StopReason::EndTurn),
        ("tool_calls", StopReason::ToolUse),
        ("length", StopReason::MaxTokens),
        ("content_filter", StopReason::EndTurn),
        ("", StopReason::EndTurn),
    ];
    for (text, reason) in cases {
        assert_eq!(parse_stop_reason(text), reason, "{text}");
    }
}

#[test]
fn inputs_of_tools() {
    assert_eq!(parse_tool_input("").to_text(), "{}");
    assert_eq!(parse_tool_input("{\"b\": 1, \"a\": [true, null]}").to_text(), r#"{"a":[true,null],"b":1}"#);
    assert_eq!(parse_tool_input("{broken").to_text(), "null");
    assert_eq!(json_or_null(None).to_text(), "null");
    assert_eq!(json_or_null(Some(Json::Bool(true))).to_text(), "true");
}

#[test]
fn usage_in_detail() {
    let u = read_usage(Some(usage()));
    let extra = Json::Object(u.extra).to_text();
    assert_eq!(
        extra,
        r#"{"cached_tokens":3,"prompt_cache_hit_tokens":4,"prompt_cache_miss_tokens":6}"#
    );
    let bare = read_usage(Some(ApiUsage { prompt_tokens_details: None, ..usage() }));
    assert_eq!(
        Json::Object(bare.extra).to_text(),
        r#"{"prompt_cache_hit_tokens":4,"prompt_cache_miss_tokens":6}"#
    );
    let none = read_usage(None);
    assert_eq!((none.input_tokens, none.output_tokens, none.extra.len()), (0, 0, 0));
}

#[test]
fn chunks_for_any_provider() {
    assert!(matches!(
        AnyChunk::from_reply(StreamChunk::Text("t".to_string())),
        AnyChunk::Text(t) if t == "t"
    ));
    let call = StreamChunk::ToolUse {
        id: "i".to_string(),
        name: "n".to_string(),
        input: Json::Null,
    };
    assert!(matches!(AnyChunk::from_reply(call), AnyChunk::ToolUse { id, .. } if id == "i"));
    for (ours, theirs) in [
        (StopReason::EndTurn, agent_tutorial::provider::StopReason::EndTurn),
        (StopReason::ToolUse, agent_tutorial::provider::StopReason::ToolUse),
        (StopReason::MaxTokens, agent_tutorial::provider::StopReason::MaxTokens),
    ] {
        let end = StreamChunk::Finished { stop_reason: ours, usage: read_usage(None) };
        assert!(matches!(
            AnyChunk::from_reply(end),
            AnyChunk::Finished { stop_reason, .. } if stop_reason == theirs
        ));
    }
}
