//! The streamed reply: its chunks, the lines that it arrives in, and the queue
//! of chunks that a decoder fills.

use std::collections::VecDeque;
use vstd::prelude::*;
use crate::ai::error::{AiError, AiErrorModel};
use crate::json::{copy_fields, Json, JsonModel};
use crate::text;

verus! {

/// Why the language model stopped.
#[derive(Debug, Clone, Copy, PartialEq, Eq, Structural)]
pub enum StopReason {
    EndTurn,
    ToolUse,
    MaxTokens,
}

/// The tokens that a reply took.
#[derive(Debug)]
pub struct Usage {
    pub input_tokens: u64,
    pub output_tokens: u64,
    /// What else the provider says of them, by name.
    pub extra: Vec<(String, Json)>,
}

/// The tokens that a reply took.
#[verifier::ext_equal]
pub struct UsageModel {
    pub input_tokens: nat,
    pub output_tokens: nat,
    pub extra: Map<Seq<char>, JsonModel>,
}

/// A usage without further particulars.
pub open spec fn token_usage(input_tokens: nat, output_tokens: nat) -> UsageModel {
    UsageModel { input_tokens, output_tokens, extra: Map::empty() }
}

impl DeepView for Usage {
    type V = UsageModel;

    open spec fn deep_view(&self) -> UsageModel {
        UsageModel {
            input_tokens: self.input_tokens as nat,
            output_tokens: self.output_tokens as nat,
            extra: Json::field_models(self.extra@),
        }
    }
}

impl Clone for Usage {
    fn clone(&self) -> (r: Self)
        ensures
            r.deep_view() == self.deep_view(),
    {
        Usage {
            input_tokens: self.input_tokens,
            output_tokens: self.output_tokens,
            extra: copy_fields(&self.extra),
        }
    }
}

impl Default for Usage {
    fn default() -> (r: Self)
        ensures
            r.deep_view() == token_usage(0, 0),
    {
        Usage { input_tokens: 0, output_tokens: 0, extra: Vec::new() }
    }
}

/// A chunk of a streamed reply.
#[derive(Debug)]
pub enum StreamChunk {
    Text(String),
    ToolUse { id: String, name: String, input: Json },
    Finished { stop_reason: StopReason, usage: Usage },
}

/// What a chunk says.
pub enum ChunkModel {
    Text(Seq<char>),
    ToolUse { id: Seq<char>, name: Seq<char>, input: JsonModel },
    Finished { stop_reason: StopReason, usage: UsageModel },
}

impl DeepView for StreamChunk {
    type V = ChunkModel;

    open spec fn deep_view(&self) -> ChunkModel {
        match *self {
            StreamChunk::Text(t) => ChunkModel::Text(t@),
            StreamChunk::ToolUse { id, name, input } => ChunkModel::ToolUse {
                id: id@,
                name: name@,
                input: input.model(),
            },
            StreamChunk::Finished { stop_reason, usage } => ChunkModel::Finished {
                stop_reason,
                usage: usage.deep_view(),
            },
        }
    }
}

impl Clone for StreamChunk {
    fn clone(&self) -> (r: Self)
        ensures
            r.deep_view() == self.deep_view(),
    {
        match self {
            StreamChunk::Text(t) => StreamChunk::Text(t.clone()),
            StreamChunk::ToolUse { id, name, input } => StreamChunk::ToolUse {
                id: id.clone(),
                name: name.clone(),
                input: input.clone(),
            },
            StreamChunk::Finished { stop_reason, usage } => StreamChunk::Finished {
                stop_reason: *stop_reason,
                usage: usage.clone(),
            },
        }
    }
}

// ---------------------------------------------------------------------------
// Lines
// ---------------------------------------------------------------------------

/// The lines that are complete in `bytes`, without the line feeds that end them.
pub open spec fn complete_lines(bytes: Seq<u8>) -> Seq<Seq<u8>>
    decreases bytes.len(),
{
    if bytes.len() == 0 {
        Seq::empty()
    } else {
        let before = bytes.drop_last();
        if bytes.last() == 10 {
            complete_lines(before).push(open_line(before))
        } else {
            complete_lines(before)
        }
    }
}

/// What follows the last line feed of `bytes`.
pub open spec fn open_line(bytes: Seq<u8>) -> Seq<u8>
    decreases bytes.len(),
{
    if bytes.len() == 0 || bytes.last() == 10 {
        Seq::empty()
    } else {
        open_line(bytes.drop_last()).push(bytes.last())
    }
}

/// The text of a line without the white space around it.
pub open spec fn line_text(line: Seq<u8>) -> Seq<char> {
    text::trim(text::decoded(line))
}

/// The texts of the lines, without the empty ones.
pub open spec fn line_texts(lines: Seq<Seq<u8>>) -> Seq<Seq<char>>
    decreases lines.len(),
{
    if lines.len() == 0 {
        Seq::empty()
    } else {
        let before = line_texts(lines.drop_last());
        let last = line_text(lines.last());
        if last.len() == 0 {
            before
        } else {
            before.push(last)
        }
    }
}

/// Whether a text is a line as it is handed out: it is not empty, has no white
/// space around it and holds no line feed.
pub open spec fn is_line(t: Seq<char>) -> bool {
    t.len() > 0 && text::trim(t) == t && !t.contains('\n')
}

/// Splits a stream of bytes into lines without the white space around them,
/// leaving out the empty ones.
///
/// It keeps bytes, not text, so that a character whose bytes arrive apart is put
/// together again: a line is decoded once it is complete.
pub struct SseFrameReader {
    buffer: Vec<u8>,
}

impl View for SseFrameReader {
    type V = Seq<u8>;

    /// The bytes that are kept: those of the line that is not complete yet.
    closed spec fn view(&self) -> Seq<u8> {
        self.buffer@
    }
}

/// A line of the reply, if it is not empty.
fn read_line(line: &Vec<u8>) -> (r: Option<String>)
    ensures
        r.deep_view() == if line_text(line@).len() == 0 {
            None
        } else {
            Some(line_text(line@))
        },
        !line@.contains(10u8) ==> (r matches Some(t) ==> is_line(t@)),
{
    let decoded = text::from_utf8_lossy(line);
    let trimmed = text::trimmed_str(decoded.as_str());
    proof {
        text::lemma_trimmed(decoded@);
    }
    if trimmed.len() == 0 {
        None
    } else {
        Some(text::string_of(&trimmed))
    }
}

impl Default for SseFrameReader {
    fn default() -> (r: Self)
        ensures
            r.wf(),
            r@ == Seq::<u8>::empty(),
    {
        SseFrameReader::new()
    }
}

impl SseFrameReader {
    /// Whether what is kept holds no line feed.
    pub open spec fn wf(self) -> bool {
        open_line(self@) == self@
    }

    /// A reader that has read nothing.
    pub fn new() -> (r: Self)
        ensures
            r.wf(),
            r@ == Seq::<u8>::empty(),
    {
        SseFrameReader { buffer: Vec::new() }
    }

    /// Reads `bytes` and returns the lines that are now complete.
    pub fn push(&mut self, bytes: &[u8]) -> (r: Vec<String>)
        requires
            old(self).wf(),
        ensures
            final(self).wf(),
            r.deep_view() == line_texts(complete_lines(old(self)@ + bytes@)),
            forall|i: int| 0 <= i < r@.len() ==> is_line((#[trigger] r@[i])@),
            final(self)@ == open_line(old(self)@ + bytes@),
    {
        let mut lines: Vec<String> = Vec::new();
        let mut i: usize = 0;
        let ghost start = self.buffer@;
        proof {
            assert(start + bytes@.take(0) =~= start);
            lemma_no_complete_line(start);
        }
        assert(lines.deep_view() =~= line_texts(complete_lines(start)));
        while i < bytes.len()
            invariant
                i <= bytes.len(),
                self.buffer@ == open_line(start + bytes@.take(i as int)),
                lines.deep_view() == line_texts(complete_lines(start + bytes@.take(i as int))),
                forall|k: int| 0 <= k < lines@.len() ==> is_line((#[trigger] lines@[k])@),
            decreases bytes.len() - i,
        {
            let ghost read = start + bytes@.take(i as int);
            let ghost now = start + bytes@.take(i + 1);
            assert(now.drop_last() =~= read);
            assert(now.last() == bytes@[i as int]);
            let ghost before = lines.deep_view();
            if bytes[i] == 10u8 {
                proof {
                    assert(complete_lines(now).drop_last() =~= complete_lines(read));
                    lemma_open_line_is_one_line(read);
                }
                match read_line(&self.buffer) {
                    Some(line) => {
                        lines.push(line);
                        assert(lines.deep_view() =~= before.push(line@));
                    },
                    None => {},
                }
                self.buffer = Vec::new();
            } else {
                self.buffer.push(bytes[i]);
            }
            i = i + 1;
        }
        proof {
            assert(bytes@.take(bytes@.len() as int) =~= bytes@);
            lemma_open_line(start + bytes@);
        }
        lines
    }

    /// At the end of the stream: the last line, if it is not empty.
    pub fn flush(&mut self) -> (r: Option<String>)
        requires
            old(self).wf(),
        ensures
            r.deep_view() == if line_text(old(self)@).len() == 0 {
                None
            } else {
                Some(line_text(old(self)@))
            },
            r matches Some(t) ==> is_line(t@),
            final(self).wf(),
            final(self)@ == Seq::<u8>::empty(),
    {
        proof {
            lemma_open_line_is_one_line(self@);
        }
        let r = read_line(&self.buffer);
        self.buffer = Vec::new();
        r
    }
}

proof fn lemma_open_line(bytes: Seq<u8>)
    ensures
        open_line(open_line(bytes)) == open_line(bytes),
    decreases bytes.len(),
{
    if bytes.len() > 0 && bytes.last() != 10 {
        lemma_open_line(bytes.drop_last());
        let line = open_line(bytes);
        assert(line.drop_last() =~= open_line(bytes.drop_last()));
    }
}

proof fn lemma_open_line_is_one_line(bytes: Seq<u8>)
    ensures
        !open_line(bytes).contains(10u8),
    decreases bytes.len(),
{
    if bytes.len() > 0 && bytes.last() != 10 {
        lemma_open_line_is_one_line(bytes.drop_last());
        let before = open_line(bytes.drop_last());
        assert forall|i: int| 0 <= i < open_line(bytes).len() implies open_line(bytes)[i] != 10u8 by {
            if i < before.len() {
                assert(before.contains(before[i]));
            }
        }
    }
}

proof fn lemma_no_complete_line(line: Seq<u8>)
    requires
        open_line(line) == line,
    ensures
        complete_lines(line) == Seq::<Seq<u8>>::empty(),
    decreases line.len(),
{
    if line.len() > 0 {
        let before = line.drop_last();
        assert(open_line(line).drop_last() =~= open_line(before));
        lemma_no_complete_line(before);
    }
}

/// Where the stream is cut does not matter: to read `a` and then `b` is to read
/// `a + b`.
pub proof fn lemma_cut_anywhere(a: Seq<u8>, b: Seq<u8>)
    ensures
        line_texts(complete_lines(a + b)) == line_texts(complete_lines(a)) + line_texts(
            complete_lines(open_line(a) + b),
        ),
        open_line(a + b) == open_line(open_line(a) + b),
{
    lemma_cut_lines(a, b);
    lemma_line_texts_of_both(complete_lines(a), complete_lines(open_line(a) + b));
}

proof fn lemma_cut_lines(a: Seq<u8>, b: Seq<u8>)
    ensures
        complete_lines(a + b) == complete_lines(a) + complete_lines(open_line(a) + b),
        open_line(a + b) == open_line(open_line(a) + b),
    decreases b.len(),
{
    if b.len() == 0 {
        assert(a + b =~= a);
        assert(open_line(a) + b =~= open_line(a));
        lemma_open_line(a);
        lemma_no_complete_line(open_line(a));
        assert(complete_lines(a) + Seq::<Seq<u8>>::empty() =~= complete_lines(a));
    } else {
        let short = b.drop_last();
        lemma_cut_lines(a, short);
        assert((a + b).drop_last() =~= a + short);
        assert((open_line(a) + b).drop_last() =~= open_line(a) + short);
        assert((a + b).last() == b.last());
        assert((open_line(a) + b).last() == b.last());
        assert(complete_lines(a + b) =~= complete_lines(a) + complete_lines(open_line(a) + b));
    }
}

proof fn lemma_line_texts_of_both(a: Seq<Seq<u8>>, b: Seq<Seq<u8>>)
    ensures
        line_texts(a + b) == line_texts(a) + line_texts(b),
    decreases b.len(),
{
    if b.len() == 0 {
        assert(a + b =~= a);
        assert(line_texts(a) + line_texts(b) =~= line_texts(a));
    } else {
        lemma_line_texts_of_both(a, b.drop_last());
        assert((a + b).drop_last() =~= a + b.drop_last());
        assert((a + b).last() == b.last());
        assert(line_texts(a + b) =~= line_texts(a) + line_texts(b));
    }
}

/// The lines that are complete in a text, without the line feeds that end them.
pub open spec fn complete_text_lines(t: Seq<char>) -> Seq<Seq<char>>
    decreases t.len(),
{
    if t.len() == 0 {
        Seq::empty()
    } else {
        let before = t.drop_last();
        if t.last() == '\n' {
            complete_text_lines(before).push(open_text_line(before))
        } else {
            complete_text_lines(before)
        }
    }
}

/// What follows the last line feed of a text.
pub open spec fn open_text_line(t: Seq<char>) -> Seq<char>
    decreases t.len(),
{
    if t.len() == 0 || t.last() == '\n' {
        Seq::empty()
    } else {
        open_text_line(t.drop_last()).push(t.last())
    }
}

/// The lines without the white space around them, leaving out the empty ones.
pub open spec fn trimmed_lines(lines: Seq<Seq<char>>) -> Seq<Seq<char>>
    decreases lines.len(),
{
    if lines.len() == 0 {
        Seq::empty()
    } else {
        let before = trimmed_lines(lines.drop_last());
        let last = text::trim(lines.last());
        if last.len() == 0 {
            before
        } else {
            before.push(last)
        }
    }
}

/// No character is damaged: the lines that are read from the UTF-8 bytes of a
/// text are the lines of the text, and the line at the end of the stream is the
/// text's last line.
pub proof fn lemma_text_arrives(t: Seq<char>)
    ensures
        line_texts(complete_lines(vstd::utf8::encode_utf8(t))) == trimmed_lines(complete_text_lines(t)),
        line_text(open_line(vstd::utf8::encode_utf8(t))) == text::trim(open_text_line(t)),
    decreases t.len(),
{
    lemma_open_line_of_text(t);
    lemma_decoded(open_text_line(t));
    if t.len() > 0 {
        let before = t.drop_last();
        lemma_text_arrives(before);
        lemma_open_line_of_text(before);
        lemma_encode_push(before, t.last());
        assert(t =~= before.push(t.last()));
        if t.last() == '\n' {
            lemma_line_feed();
            let bytes = vstd::utf8::encode_utf8(t);
            assert(bytes.drop_last() =~= vstd::utf8::encode_utf8(before));
            lemma_decoded(open_text_line(before));
            assert(complete_lines(bytes).drop_last() =~= complete_lines(bytes.drop_last()));
            assert(complete_text_lines(t).drop_last() =~= complete_text_lines(before));
        } else {
            lemma_plain_bytes(t.last());
            lemma_extend_line(vstd::utf8::encode_utf8(before), vstd::utf8::encode_scalar(t.last() as u32));
        }
    }
}

proof fn lemma_open_line_of_text(t: Seq<char>)
    ensures
        open_line(vstd::utf8::encode_utf8(t)) == vstd::utf8::encode_utf8(open_text_line(t)),
    decreases t.len(),
{
    if t.len() > 0 {
        let before = t.drop_last();
        lemma_open_line_of_text(before);
        lemma_encode_push(before, t.last());
        assert(t =~= before.push(t.last()));
        if t.last() == '\n' {
            lemma_line_feed();
        } else {
            lemma_plain_bytes(t.last());
            lemma_extend_line(vstd::utf8::encode_utf8(before), vstd::utf8::encode_scalar(t.last() as u32));
            lemma_encode_push(open_text_line(before), t.last());
        }
    }
}

proof fn lemma_decoded(t: Seq<char>)
    ensures
        text::decoded(vstd::utf8::encode_utf8(t)) == t,
{
    vstd::utf8::encode_utf8_valid_utf8(t);
    vstd::utf8::encode_utf8_decode_utf8(t);
}

proof fn lemma_encode_push(t: Seq<char>, c: char)
    ensures
        vstd::utf8::encode_utf8(t.push(c)) == vstd::utf8::encode_utf8(t) + vstd::utf8::encode_scalar(c as u32),
    decreases t.len(),
{
    let long = t.push(c);
    if t.len() == 0 {
        assert(long.drop_first() =~= Seq::<char>::empty());
        assert(vstd::utf8::encode_utf8(Seq::<char>::empty()) =~= Seq::<u8>::empty());
        assert(vstd::utf8::encode_utf8(long) =~= vstd::utf8::encode_scalar(c as u32));
        assert(vstd::utf8::encode_utf8(t) + vstd::utf8::encode_scalar(c as u32) =~= vstd::utf8::encode_scalar(
            c as u32,
        ));
    } else {
        lemma_encode_push(t.drop_first(), c);
        assert(long.drop_first() =~= t.drop_first().push(c));
        assert(long[0] == t[0]);
        assert(vstd::utf8::encode_utf8(long) =~= vstd::utf8::encode_utf8(t) + vstd::utf8::encode_scalar(c as u32));
    }
}

proof fn lemma_line_feed()
    ensures
        vstd::utf8::encode_scalar('\n' as u32) == seq![10u8],
{
    assert((10u32 & 0x7f) as u8 == 10u8) by (bit_vector);
    assert(vstd::utf8::encode_scalar('\n' as u32) =~= seq![10u8]);
}

proof fn lemma_plain_bytes(c: char)
    requires
        c != '\n',
    ensures
        !vstd::utf8::encode_scalar(c as u32).contains(10u8),
{
    let v = c as u32;
    vstd::utf8::char_is_scalar(c);
    assert(v <= 0x7f && v != 10 ==> (v & 0x7f) as u8 != 10u8) by (bit_vector);
    assert(0xC0u8 | ((v >> 6) & 0x1F) as u8 != 10u8) by (bit_vector);
    assert(0xE0u8 | ((v >> 12) & 0x0F) as u8 != 10u8) by (bit_vector);
    assert(0xF0u8 | ((v >> 18) & 0x7) as u8 != 10u8) by (bit_vector);
    assert(0x80u8 | (v & 0x3F) as u8 != 10u8) by (bit_vector);
    assert(0x80u8 | ((v >> 6) & 0x3F) as u8 != 10u8) by (bit_vector);
    assert(0x80u8 | ((v >> 12) & 0x3F) as u8 != 10u8) by (bit_vector);
}

proof fn lemma_extend_line(bytes: Seq<u8>, more: Seq<u8>)
    requires
        !more.contains(10u8),
    ensures
        complete_lines(bytes + more) == complete_lines(bytes),
        open_line(bytes + more) == open_line(bytes) + more,
    decreases more.len(),
{
    if more.len() == 0 {
        assert(bytes + more =~= bytes);
        assert(open_line(bytes) + more =~= open_line(bytes));
    } else {
        let short = more.drop_last();
        assert forall|i: int| 0 <= i < short.len() implies short[i] != 10u8 by {
            assert(more.contains(more[i]));
        }
        lemma_extend_line(bytes, short);
        assert(more.contains(more.last()));
        assert((bytes + more).drop_last() =~= bytes + short);
        assert((bytes + more).last() == more.last());
        assert(open_line(bytes + more) =~= open_line(bytes) + more);
    }
}

// ---------------------------------------------------------------------------
// Decoding
// ---------------------------------------------------------------------------

/// What a decoder makes of bytes.
pub type DecodedModel = Result<Seq<ChunkModel>, AiErrorModel>;

/// What a decoder made of bytes.
pub open spec fn decoded_model(r: Result<Vec<StreamChunk>, AiError>) -> DecodedModel {
    match r {
        Ok(chunks) => Ok(chunks.deep_view()),
        Err(e) => Err(e.deep_view()),
    }
}

/// Turns the bytes of a reply into chunks. It does its own framing and keeps
/// what it needs between calls.
pub trait StreamDecoder: Sized {
    /// What a decoder keeps between calls, as far as it matters to what it makes of
    /// further bytes.
    type State;

    /// What the decoder keeps now.
    open spec fn state(&self) -> Self::State {
        arbitrary()
    }

    /// What a decoder makes of further bytes.
    open spec fn fed(state: Self::State, bytes: Seq<u8>) -> DecodedModel {
        arbitrary()
    }

    /// What a decoder keeps after further bytes.
    open spec fn after_feed(state: Self::State, bytes: Seq<u8>) -> Self::State {
        arbitrary()
    }

    /// What a decoder makes of the end of the bytes.
    open spec fn finished(state: Self::State) -> DecodedModel {
        arbitrary()
    }

    /// What a decoder keeps after the end of the bytes.
    open spec fn after_finish(state: Self::State) -> Self::State {
        arbitrary()
    }

    /// Reads bytes and returns the chunks that are now known.
    fn feed(&mut self, bytes: &[u8]) -> (r: Result<Vec<StreamChunk>, AiError>)
        ensures
            decoded_model(r) == Self::fed(old(self).state(), bytes@),
            final(self).state() == Self::after_feed(old(self).state(), bytes@),
    ;

    /// Called once the bytes have ended: returns the chunks that are left.
    fn finish(&mut self) -> (r: Result<Vec<StreamChunk>, AiError>)
        ensures
            decoded_model(r) == Self::finished(old(self).state()),
            final(self).state() == Self::after_finish(old(self).state()),
    ;
}

/// Drives bytes through a decoder and hands the chunks out one by one.
pub struct DecodingStream<D> {
    decoder: D,
    pending: VecDeque<StreamChunk>,
    finished: bool,
}

/// What a [`DecodingStream`] can give now.
#[derive(Debug)]
pub enum Pull {
    /// The next chunk.
    Chunk(StreamChunk),
    /// There is no chunk until more bytes, or their end, are handed in.
    NeedBytes,
    /// There are no more chunks.
    Ended,
}

/// What a [`DecodingStream`] can give now.
pub enum PullModel {
    Chunk(ChunkModel),
    NeedBytes,
    Ended,
}

impl DeepView for Pull {
    type V = PullModel;

    open spec fn deep_view(&self) -> PullModel {
        match *self {
            Pull::Chunk(c) => PullModel::Chunk(c.deep_view()),
            Pull::NeedBytes => PullModel::NeedBytes,
            Pull::Ended => PullModel::Ended,
        }
    }
}

/// The chunks of a queue.
pub open spec fn chunk_models(chunks: Seq<StreamChunk>) -> Seq<ChunkModel> {
    chunks.map_values(|c: StreamChunk| c.deep_view())
}

/// What a stream can give that knows these chunks.
pub open spec fn pulled(pending: Seq<ChunkModel>, ended: bool) -> PullModel {
    if pending.len() > 0 {
        PullModel::Chunk(pending[0])
    } else if ended {
        PullModel::Ended
    } else {
        PullModel::NeedBytes
    }
}

/// The chunks that are known are given before anything else, the oldest first; only then the
/// end, once it is known, and until it is known more bytes are needed.
pub proof fn lemma_chunks_come_first(pending: Seq<ChunkModel>, chunk: ChunkModel, ended: bool)
    ensures
        pulled(seq![chunk] + pending, ended) == PullModel::Chunk(chunk),
        pulled(Seq::empty(), true) is Ended,
        pulled(Seq::empty(), false) is NeedBytes,
        pulled(pending, ended) is Ended ==> ended && pending.len() == 0,
{
}

impl<D: StreamDecoder> DecodingStream<D> {
    /// What the decoder keeps.
    pub closed spec fn decoder(self) -> D::State {
        self.decoder.state()
    }

    /// The chunks that are known and not handed out yet.
    pub closed spec fn pending(self) -> Seq<ChunkModel> {
        chunk_models(self.pending@)
    }

    /// Whether the bytes have ended.
    pub closed spec fn ended(self) -> bool {
        self.finished
    }

    /// Whether the stream is `after` once it has read further bytes: the decoder
    /// has read them, and the chunks that it made of them are at the end of those
    /// that are known. Bytes that the decoder makes an error of bring none.
    pub open spec fn takes_in(self, bytes: Seq<u8>, after: Self) -> bool {
        &&& after.decoder() == D::after_feed(self.decoder(), bytes)
        &&& after.ended() == self.ended()
        &&& after.pending() == match D::fed(self.decoder(), bytes) {
            Ok(chunks) => self.pending() + chunks,
            Err(_) => self.pending(),
        }
    }

    /// A stream of which nothing has been read.
    pub fn new(decoder: D) -> (r: Self)
        ensures
            r.decoder() == decoder.state(),
            r.pending() == Seq::<ChunkModel>::empty(),
            !r.ended(),
    {
        let r = DecodingStream { decoder, pending: VecDeque::new(), finished: false };
        assert(r.pending() =~= Seq::<ChunkModel>::empty());
        r
    }

    /// The next chunk, or what is missing.
    pub fn next(&mut self) -> (r: Pull)
        ensures
            final(self).decoder() == old(self).decoder(),
            final(self).ended() == old(self).ended(),
            r.deep_view() == pulled(old(self).pending(), old(self).ended()),
            old(self).pending().len() > 0 ==> r.deep_view() == PullModel::Chunk(old(self).pending()[0])
                && final(self).pending() == old(self).pending().drop_first(),
            old(self).pending().len() == 0 ==> final(self).pending() == old(self).pending() && r.deep_view()
                == if old(self).ended() {
                PullModel::Ended
            } else {
                PullModel::NeedBytes
            },
    {
        let ghost before = self.pending@;
        match self.pending.pop_front() {
            Some(c) => {
                assert(chunk_models(self.pending@) =~= chunk_models(before).drop_first());
                Pull::Chunk(c)
            },
            None => if self.finished {
                Pull::Ended
            } else {
                Pull::NeedBytes
            },
        }
    }

    /// Takes up what the decoder made of bytes.
    fn accept(&mut self, chunks: Vec<StreamChunk>)
        ensures
            final(self).decoder() == old(self).decoder(),
            final(self).ended() == old(self).ended(),
            final(self).pending() == old(self).pending() + chunks.deep_view(),
    {
        let ghost before = self.pending@;
        let ghost decoder = self.decoder;
        let ghost finished = self.finished;
        let ghost all = chunks@;
        for c in it: chunks.into_iter()
            invariant
                it.seq() == all,
                self.decoder == decoder,
                self.finished == finished,
                self.pending@ == before + all.take(it.index() as int),
        {
            self.pending.push_back(c);
            assert(self.pending@ =~= before + all.take(it.index() + 1));
        }
        assert(all.take(all.len() as int) =~= all);
        assert(chunk_models(self.pending@) =~= chunk_models(before) + chunks.deep_view());
    }

    /// Reads bytes of the reply.
    pub fn on_bytes(&mut self, bytes: &[u8]) -> (r: Result<(), AiError>)
        ensures
            old(self).takes_in(bytes@, *final(self)),
            match D::fed(old(self).decoder(), bytes@) {
                Ok(chunks) => r is Ok,
                Err(e) => r is Err && r->Err_0.deep_view() == e,
            },
    {
        match self.decoder.feed(bytes) {
            Ok(chunks) => {
                self.accept(chunks);
                Ok(())
            },
            Err(e) => Err(e),
        }
    }

    /// Takes note that the reply has ended.
    pub fn on_end(&mut self) -> (r: Result<(), AiError>)
        ensures
            final(self).decoder() == D::after_finish(old(self).decoder()),
            match D::finished(old(self).decoder()) {
                Ok(chunks) => r is Ok && final(self).pending() == old(self).pending() + chunks && final(self).ended(),
                Err(e) => r is Err && r->Err_0.deep_view() == e && final(self).pending() == old(self).pending()
                    && final(self).ended() == old(self).ended(),
            },
    {
        match self.decoder.finish() {
            Ok(chunks) => {
                self.accept(chunks);
                self.finished = true;
                Ok(())
            },
            Err(e) => Err(e),
        }
    }
}

/// What a decoder keeps after the pieces of a reply.
pub open spec fn after_pieces<D: StreamDecoder>(state: D::State, pieces: Seq<Seq<u8>>) -> D::State
    decreases pieces.len(),
{
    if pieces.len() == 0 {
        state
    } else {
        D::after_feed(after_pieces::<D>(state, pieces.drop_last()), pieces.last())
    }
}

/// The chunks that a decoder makes of the pieces of a reply, one after the other.
pub open spec fn chunks_of_pieces<D: StreamDecoder>(state: D::State, pieces: Seq<Seq<u8>>) -> Seq<ChunkModel>
    decreases pieces.len(),
{
    if pieces.len() == 0 {
        Seq::empty()
    } else {
        let before = chunks_of_pieces::<D>(state, pieces.drop_last());
        match D::fed(after_pieces::<D>(state, pieces.drop_last()), pieces.last()) {
            Ok(chunks) => before + chunks,
            Err(_) => before,
        }
    }
}

/// No chunk is lost, doubled or moved: of a stream that reads a reply in pieces,
/// the known chunks are those that the decoder makes of the pieces, one after the
/// other, each piece read by the decoder as the pieces before have left it.
pub proof fn lemma_pieces_in_order<D: StreamDecoder>(states: Seq<DecodingStream<D>>, pieces: Seq<Seq<u8>>)
    requires
        states.len() == pieces.len() + 1,
        forall|i: int| 0 <= i < pieces.len() ==> states[i].takes_in(#[trigger] pieces[i], states[i + 1]),
    ensures
        states.last().decoder() == after_pieces::<D>(states[0].decoder(), pieces),
        states.last().pending() == states[0].pending() + chunks_of_pieces::<D>(states[0].decoder(), pieces),
        states.last().ended() == states[0].ended(),
    decreases pieces.len(),
{
    let decoder = states[0].decoder();
    if pieces.len() == 0 {
        assert(states[0].pending() + chunks_of_pieces::<D>(decoder, pieces) =~= states[0].pending());
    } else {
        let n = pieces.len() - 1;
        let before = states.drop_last();
        assert forall|i: int| 0 <= i < n implies before[i].takes_in(
            #[trigger] pieces.drop_last()[i],
            before[i + 1],
        ) by {
            assert(pieces.drop_last()[i] == pieces[i]);
        }
        lemma_pieces_in_order(before, pieces.drop_last());
        assert(states[n].takes_in(pieces[n], states[n + 1]));
        assert(states.last().pending() =~= states[0].pending() + chunks_of_pieces::<D>(decoder, pieces));
    }
}

} // verus!
