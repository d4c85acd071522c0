//! The streamed reply: its lines and the queue of its chunks.

use agent_tutorial::ai::error::AiError;
use agent_tutorial::ai::stream::{
    DecodingStream, Pull, SseFrameReader, StopReason, StreamChunk, StreamDecoder, Usage,
};

#[test]
fn splits_complete_lines_and_skips_blanks() {
    let mut r = SseFrameReader::new();
    let lines = r.push(b"data: a\n\ndata: b\n");
    assert_eq!(lines, vec!["data: a".to_string(), "data: b".to_string()]);
}

#[test]
fn joins_half_line_across_pushes() {
    let mut r = SseFrameReader::new();
    assert!(r.push(b"data: hel").is_empty());
    let lines = r.push(b"lo\n");
    assert_eq!(lines, vec!["data: hello".to_string()]);
}

#[test]
fn flush_returns_trailing_nonempty() {
    let mut r = SseFrameReader::new();
    assert!(r.push(b"data: tail").is_empty());
    assert_eq!(r.flush(), Some("data: tail".to_string()));
    assert_eq!(r.flush(), None);
}

#[test]
fn multibyte_char_split_across_chunks_is_preserved() {
    let mut r = SseFrameReader::new();
    assert!(r.push(b"data: \xe4\xbd").is_empty());
    let lines = r.push(b"\xa0\n");
    assert_eq!(lines, vec!["data: 你".to_string()]);
}

#[test]
fn handles_crlf_line_endings() {
    let mut r = SseFrameReader::new();
    let lines = r.push(b"data: a\r\ndata: b\r\n");
    assert_eq!(lines, vec!["data: a".to_string(), "data: b".to_string()]);
}

#[test]
fn where_the_bytes_are_cut_does_not_matter() {
    let text = "data: 你好\r\n\n  data: 🎉 x \ndata: é\nrest ü";
    let bytes = text.as_bytes();
    let mut whole = SseFrameReader::default();
    let expected = whole.push(bytes);
    assert_eq!(expected, vec!["data: 你好", "data: 🎉 x", "data: é"]);
    let expected_rest = whole.flush();
    assert_eq!(expected_rest, Some("rest ü".to_string()));
    for cut in 0..=bytes.len() {
        let mut r = SseFrameReader::new();
        let mut lines = r.push(&bytes[..cut]);
        lines.extend(r.push(&bytes[cut..]));
        assert_eq!(lines, expected, "{cut}");
        assert_eq!(r.flush(), expected_rest, "{cut}");
    }
}

#[test]
fn bytes_that_are_no_utf8_are_repaired() {
    let mut r = SseFrameReader::new();
    assert_eq!(r.push(b"a\xffb\n"), vec!["a\u{fffd}b".to_string()]);
    assert!(r.push(b"   ").is_empty());
    assert_eq!(r.flush(), None);
}

#[test]
fn lines_are_trimmed_and_hold_no_line_feed() {
    let bytes = b" a \xe4\n\xbd\xa0 b\r\n\n\xff\xfe\n \t\xf0\x9f c \n\xc3";
    for cut in 0..=bytes.len() {
        let mut r = SseFrameReader::new();
        let mut lines = r.push(&bytes[..cut]);
        lines.extend(r.push(&bytes[cut..]));
        lines.extend(r.flush());
        assert_eq!(
            lines,
            vec!["a \u{fffd}", "\u{fffd}\u{fffd} b", "\u{fffd}\u{fffd}", "\u{fffd} c", "\u{fffd}"],
            "{cut}"
        );
        for line in lines {
            assert!(!line.is_empty() && line.trim() == line && !line.contains('\n'));
        }
    }
}

/// Turns each piece of bytes into a text, and says that the reply is over.
struct EchoDecoder;

impl StreamDecoder for EchoDecoder {
    type State = ();

    fn feed(&mut self, bytes: &[u8]) -> Result<Vec<StreamChunk>, AiError> {
        Ok(vec![StreamChunk::Text(String::from_utf8_lossy(bytes).into_owned())])
    }

    fn finish(&mut self) -> Result<Vec<StreamChunk>, AiError> {
        Ok(vec![StreamChunk::Finished {
            stop_reason: StopReason::EndTurn,
            usage: Usage::default(),
        }])
    }
}

#[test]
fn yields_decoded_chunks_then_finish() {
    let mut bytes = vec![b"foo".to_vec(), b"bar".to_vec()].into_iter();
    let mut ds = DecodingStream::new(EchoDecoder);

    let mut texts = Vec::new();
    let mut finished = false;
    loop {
        match ds.next() {
            Pull::Chunk(StreamChunk::Text(t)) => texts.push(t),
            Pull::Chunk(StreamChunk::Finished { .. }) => finished = true,
            Pull::Chunk(_) => {}
            Pull::NeedBytes => match bytes.next() {
                Some(b) => ds.on_bytes(&b).unwrap(),
                None => ds.on_end().unwrap(),
            },
            Pull::Ended => break,
        }
    }
    assert_eq!(texts, vec!["foo".to_string(), "bar".to_string()]);
    assert!(finished);
    assert!(matches!(ds.next(), Pull::Ended));
}

/// Counts the bytes that it has read.
struct CountingDecoder {
    read: usize,
}

impl StreamDecoder for CountingDecoder {
    type State = ();

    fn feed(&mut self, bytes: &[u8]) -> Result<Vec<StreamChunk>, AiError> {
        self.read += bytes.len();
        match bytes {
            b"bad" => Err(AiError::Parse("bad".to_string())),
            _ => Ok(vec![StreamChunk::Text(format!("{}", self.read))]),
        }
    }

    fn finish(&mut self) -> Result<Vec<StreamChunk>, AiError> {
        Ok(vec![])
    }
}

#[test]
fn a_decoder_remembers_the_pieces_before() {
    let mut ds = DecodingStream::new(CountingDecoder { read: 0 });
    ds.on_bytes(b"ab").unwrap();
    assert!(ds.on_bytes(b"bad").is_err());
    ds.on_bytes(b"c").unwrap();
    ds.on_end().unwrap();
    let mut texts = Vec::new();
    while let Pull::Chunk(StreamChunk::Text(t)) = ds.next() {
        texts.push(t);
    }
    assert_eq!(texts, vec!["2".to_string(), "6".to_string()]);
}

/// Fails on everything.
struct BrokenDecoder;

impl StreamDecoder for BrokenDecoder {
    type State = ();

    fn feed(&mut self, _bytes: &[u8]) -> Result<Vec<StreamChunk>, AiError> {
        Err(AiError::Parse("feed".to_string()))
    }

    fn finish(&mut self) -> Result<Vec<StreamChunk>, AiError> {
        Err(AiError::StreamUnexpected("finish".to_string()))
    }
}

#[test]
fn errors_of_a_decoder_are_handed_on() {
    let mut ds = DecodingStream::new(BrokenDecoder);
    assert!(matches!(ds.on_bytes(b"x"), Err(AiError::Parse(m)) if m == "feed"));
    assert!(matches!(ds.next(), Pull::NeedBytes));
    assert!(matches!(ds.on_end(), Err(AiError::StreamUnexpected(m)) if m == "finish"));
    assert!(matches!(ds.next(), Pull::NeedBytes));
}

#[test]
fn chunks_keep_what_they_say_when_copied() {
    let chunk = StreamChunk::Finished {
        stop_reason: StopReason::MaxTokens,
        usage: Usage { input_tokens: 3, output_tokens: 4, extra: Vec::new() },
    };
    match chunk.clone() {
        StreamChunk::Finished { stop_reason, usage } => {
            assert_eq!(stop_reason, StopReason::MaxTokens);
            assert_eq!((usage.input_tokens, usage.output_tokens), (3, 4));
        }
        _ => panic!("another chunk"),
    }
}

#[test]
fn errors_in_words() {
    let text = |e: AiError| e.to_text();
    assert_eq!(
        text(AiError::Api { status: 404, message: "gone".to_string() }),
        "API error (404): gone"
    );
    assert_eq!(text(AiError::Encode("x".to_string())), "Failed to encode request: x");
    assert_eq!(text(AiError::Parse("x".to_string())), "Failed to parse API response: x");
    assert_eq!(text(AiError::Network("x".to_string())), "Network error: x");
    assert_eq!(
        text(AiError::StreamUnexpected("x".to_string())),
        "Stream ended unexpectedly: x"
    );
    assert_eq!(text(AiError::Config("x".to_string())), "Configuration error: x");
}
