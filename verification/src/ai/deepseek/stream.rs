//! The streamed reply of DeepSeek's chat completions: its lines, the documents
//! in them, and the tool calls that arrive in pieces.

use vstd::prelude::*;
use vstd::string::StringExecFns;
use crate::ai::stream::{ChunkModel, StopReason, StreamChunk, Usage, UsageModel};
use crate::json::{no_fields, set_field, Json, JsonModel};
use crate::text;

verus! {

// ---------------------------------------------------------------------------
// The documents of the reply
// ---------------------------------------------------------------------------

/// A document of the reply.
#[derive(Debug)]
pub struct ChatChunk {
    pub choices: Vec<ChoiceDelta>,
    pub usage: Option<ApiUsage>,
}

/// A choice of a document.
#[derive(Debug)]
pub struct ChoiceDelta {
    pub delta: DeltaContent,
    pub finish_reason: Option<String>,
}

/// What a choice adds to the reply.
#[derive(Debug)]
pub struct DeltaContent {
    pub content: Option<String>,
    pub tool_calls: Option<Vec<ToolCallChunk>>,
}

/// A piece of a tool call.
#[derive(Debug)]
pub struct ToolCallChunk {
    /// Which of the tool calls it is a piece of.
    pub index: u32,
    pub id: Option<String>,
    pub function: FunctionChunk,
}

/// A piece of what a tool is called with.
#[derive(Debug)]
pub struct FunctionChunk {
    pub name: Option<String>,
    pub arguments: Option<String>,
}

/// The tokens of the prompt in detail.
#[derive(Debug, Clone, Copy)]
pub struct PromptTokensDetails {
    pub cached_tokens: u64,
}

/// The tokens that the reply took.
#[derive(Debug, Clone, Copy)]
pub struct ApiUsage {
    pub prompt_tokens: u64,
    pub completion_tokens: u64,
    pub prompt_tokens_details: Option<PromptTokensDetails>,
    pub prompt_cache_hit_tokens: u64,
    pub prompt_cache_miss_tokens: u64,
}

/// What a document says.
pub struct ChatChunkModel {
    pub choices: Seq<ChoiceModel>,
    pub usage: Option<ApiUsage>,
}

/// What a choice says.
pub struct ChoiceModel {
    pub content: Option<Seq<char>>,
    pub tool_calls: Option<Seq<ToolCallChunkModel>>,
    pub finish_reason: Option<Seq<char>>,
}

/// What a piece of a tool call says.
pub struct ToolCallChunkModel {
    pub index: u32,
    pub id: Option<Seq<char>>,
    pub name: Option<Seq<char>>,
    pub arguments: Option<Seq<char>>,
}

impl DeepView for ToolCallChunk {
    type V = ToolCallChunkModel;

    open spec fn deep_view(&self) -> ToolCallChunkModel {
        ToolCallChunkModel {
            index: self.index,
            id: self.id.deep_view(),
            name: self.function.name.deep_view(),
            arguments: self.function.arguments.deep_view(),
        }
    }
}

impl DeepView for ChoiceDelta {
    type V = ChoiceModel;

    open spec fn deep_view(&self) -> ChoiceModel {
        ChoiceModel {
            content: self.delta.content.deep_view(),
            tool_calls: self.delta.tool_calls.deep_view(),
            finish_reason: self.finish_reason.deep_view(),
        }
    }
}

impl DeepView for ChatChunk {
    type V = ChatChunkModel;

    open spec fn deep_view(&self) -> ChatChunkModel {
        ChatChunkModel { choices: self.choices.deep_view(), usage: self.usage }
    }
}

// ---------------------------------------------------------------------------
// The tool calls that arrive in pieces
// ---------------------------------------------------------------------------

/// A tool call of which pieces have arrived.
#[derive(Debug)]
struct PendingCall {
    index: u32,
    id: Option<String>,
    name: Option<String>,
    arguments: String,
}

/// A tool call of which pieces have arrived.
pub struct PendingModel {
    pub index: u32,
    pub id: Option<Seq<char>>,
    pub name: Option<Seq<char>>,
    pub arguments: Seq<char>,
}

impl DeepView for PendingCall {
    type V = PendingModel;

    closed spec fn deep_view(&self) -> PendingModel {
        PendingModel {
            index: self.index,
            id: self.id.deep_view(),
            name: self.name.deep_view(),
            arguments: self.arguments@,
        }
    }
}

/// A tool call after a further piece.
pub open spec fn extended(p: PendingModel, piece: ToolCallChunkModel) -> PendingModel {
    PendingModel {
        index: p.index,
        id: if piece.id is Some {
            piece.id
        } else {
            p.id
        },
        name: if piece.name is Some {
            piece.name
        } else {
            p.name
        },
        arguments: match piece.arguments {
            Some(more) => p.arguments + more,
            None => p.arguments,
        },
    }
}

/// A tool call of which nothing has arrived.
pub open spec fn no_pieces(index: u32) -> PendingModel {
    PendingModel { index, id: None, name: None, arguments: Seq::empty() }
}

/// The pending tool calls after a further piece, which goes to the tool call with
/// its index. Tool calls stand in the order in which they began.
pub open spec fn with_piece(pending: Seq<PendingModel>, piece: ToolCallChunkModel) -> Seq<PendingModel>
    decreases pending.len(),
{
    if pending.len() == 0 {
        seq![extended(no_pieces(piece.index), piece)]
    } else if pending[0].index == piece.index {
        seq![extended(pending[0], piece)] + pending.drop_first()
    } else {
        seq![pending[0]] + with_piece(pending.drop_first(), piece)
    }
}

/// The pending tool calls after further pieces.
pub open spec fn with_pieces(pending: Seq<PendingModel>, pieces: Seq<ToolCallChunkModel>) -> Seq<PendingModel>
    decreases pieces.len(),
{
    if pieces.len() == 0 {
        pending
    } else {
        with_piece(with_pieces(pending, pieces.drop_last()), pieces.last())
    }
}

/// What a tool is called with, given its arguments as they arrived.
pub open spec fn tool_input(arguments: Seq<char>) -> JsonModel {
    if arguments.len() == 0 {
        JsonModel::Object(Map::empty())
    } else {
        or_null(crate::json::parsed_text(arguments))
    }
}

/// The value, or null if there is none.
pub open spec fn or_null(parsed: Option<JsonModel>) -> JsonModel {
    match parsed {
        Some(v) => v,
        None => JsonModel::Null,
    }
}

/// The reason for which the language model stopped.
pub open spec fn stop_reason(reason: Seq<char>) -> StopReason {
    if reason == "tool_calls"@ {
        StopReason::ToolUse
    } else if reason == "length"@ {
        StopReason::MaxTokens
    } else {
        StopReason::EndTurn
    }
}

/// What is said of the tokens beyond their number.
pub open spec fn usage_extra(u: ApiUsage) -> Map<Seq<char>, JsonModel> {
    let cache = Map::<Seq<char>, JsonModel>::empty().insert(
        "prompt_cache_hit_tokens"@,
        JsonModel::Number(crate::json::number_from_u64(u.prompt_cache_hit_tokens)),
    ).insert(
        "prompt_cache_miss_tokens"@,
        JsonModel::Number(crate::json::number_from_u64(u.prompt_cache_miss_tokens)),
    );
    match u.prompt_tokens_details {
        Some(details) => cache.insert(
            "cached_tokens"@,
            JsonModel::Number(crate::json::number_from_u64(details.cached_tokens)),
        ),
        None => cache,
    }
}

/// The tokens that the reply took.
pub open spec fn usage_of(usage: Option<ApiUsage>) -> UsageModel {
    match usage {
        Some(u) => UsageModel {
            input_tokens: u.prompt_tokens as nat,
            output_tokens: u.completion_tokens as nat,
            extra: usage_extra(u),
        },
        None => crate::ai::stream::token_usage(0, 0),
    }
}

/// How the reply ended.
#[derive(Debug)]
struct Ending {
    stop_reason: StopReason,
    usage: Usage,
}

/// How the reply ended.
pub struct EndingModel {
    pub stop_reason: StopReason,
    pub usage: UsageModel,
}

impl DeepView for Ending {
    type V = EndingModel;

    closed spec fn deep_view(&self) -> EndingModel {
        EndingModel { stop_reason: self.stop_reason, usage: self.usage.deep_view() }
    }
}

/// What comes of a document or a part of it: the pending tool calls, the chunk
/// that is handed out, how the reply ended if that is not handed out yet, and
/// whether nothing is left to hand out.
pub struct TakenUp {
    pub pending: Seq<PendingModel>,
    pub chunk: Option<ChunkModel>,
    pub ending: Option<EndingModel>,
    pub done: bool,
}

/// Whether a tool call has what is needed to make it.
pub open spec fn is_complete(p: PendingModel) -> bool {
    p.id is Some && p.name is Some
}

/// The chunk of a complete tool call.
pub open spec fn tool_use(p: PendingModel) -> ChunkModel {
    ChunkModel::ToolUse { id: p.id->0, name: p.name->0, input: tool_input(p.arguments) }
}

/// The chunk that ends the reply.
pub open spec fn finished(ending: EndingModel) -> ChunkModel {
    ChunkModel::Finished { stop_reason: ending.stop_reason, usage: ending.usage }
}

/// What comes next once the reply has ended: the complete tool call that began
/// first, and after the last of them the end. Tool calls that are not complete
/// are passed over.
pub open spec fn drained(pending: Seq<PendingModel>, ending: EndingModel) -> TakenUp
    decreases pending.len(),
{
    if pending.len() == 0 {
        TakenUp { pending, chunk: Some(finished(ending)), ending: None, done: true }
    } else if is_complete(pending[0]) {
        TakenUp {
            pending: pending.drop_first(),
            chunk: Some(tool_use(pending[0])),
            ending: Some(ending),
            done: false,
        }
    } else {
        drained(pending.drop_first(), ending)
    }
}

/// The pending tool calls after the pieces of a choice.
pub open spec fn with_choice(pending: Seq<PendingModel>, choice: ChoiceModel) -> Seq<PendingModel> {
    match choice.tool_calls {
        Some(pieces) => with_pieces(pending, pieces),
        None => pending,
    }
}

/// What comes of a choice. Text is handed out at once, and whatever else the
/// choice says is passed over.
pub open spec fn choice_taken_up(
    pending: Seq<PendingModel>,
    choice: ChoiceModel,
    usage: Option<ApiUsage>,
) -> TakenUp {
    if choice.content is Some && choice.content->0.len() > 0 {
        TakenUp { pending, chunk: Some(ChunkModel::Text(choice.content->0)), ending: None, done: false }
    } else {
        let pending = with_choice(pending, choice);
        match choice.finish_reason {
            Some(reason) => drained(
                pending,
                EndingModel { stop_reason: stop_reason(reason), usage: usage_of(usage) },
            ),
            None => TakenUp { pending, chunk: None, ending: None, done: false },
        }
    }
}

/// What comes of choices. Those after the first from which a chunk comes are
/// passed over.
pub open spec fn taken_up(
    pending: Seq<PendingModel>,
    choices: Seq<ChoiceModel>,
    usage: Option<ApiUsage>,
) -> TakenUp
    decreases choices.len(),
{
    if choices.len() == 0 {
        TakenUp { pending, chunk: None, ending: None, done: false }
    } else {
        let first = choice_taken_up(pending, choices[0], usage);
        if first.chunk is Some {
            first
        } else {
            taken_up(first.pending, choices.drop_first(), usage)
        }
    }
}

// ---------------------------------------------------------------------------
// The lines of the reply
// ---------------------------------------------------------------------------

/// What the reader of a reply does next.
#[derive(Debug, PartialEq, Eq)]
pub enum SseStep {
    /// It needs more bytes.
    NeedBytes,
    /// It has the text of a document.
    Data(String),
    /// The reply is over.
    End,
}

/// What the reader of a reply does next.
pub enum SseStepModel {
    NeedBytes,
    Data(Seq<char>),
    End,
}

impl DeepView for SseStep {
    type V = SseStepModel;

    open spec fn deep_view(&self) -> SseStepModel {
        match *self {
            SseStep::NeedBytes => SseStepModel::NeedBytes,
            SseStep::Data(t) => SseStepModel::Data(t@),
            SseStep::End => SseStepModel::End,
        }
    }
}

/// What a line means, if it means anything.
pub open spec fn line_meaning(line: Seq<char>) -> Option<SseStepModel> {
    if line == "data: [DONE]"@ {
        Some(SseStepModel::End)
    } else if text::has_prefix(line, "data: "@) {
        Some(SseStepModel::Data(line.skip("data: "@.len() as int)))
    } else {
        None
    }
}

/// What the reader does next when it has read `buffer`, and what it has then
/// read of what follows. Lines without a meaning are passed over.
pub open spec fn next_data(buffer: Seq<char>, at_end: bool) -> (SseStepModel, Seq<char>)
    decreases buffer.len(),
{
    proof {
        buffer.index_of_first_ensures('\n');
    }
    match buffer.index_of_first('\n') {
        Some(p) => match line_meaning(text::trim(buffer.take(p))) {
            Some(step) => (step, buffer.skip(p + 1)),
            None => next_data(buffer.skip(p + 1), at_end),
        },
        None => if at_end {
            match line_meaning(text::trim(buffer)) {
                Some(step) => (step, Seq::empty()),
                None => (SseStepModel::End, Seq::empty()),
            }
        } else {
            (SseStepModel::NeedBytes, buffer)
        },
    }
}

/// Reads the streamed reply.
#[derive(Debug)]
pub struct DeepSeekStreamIterator {
    buffer: Vec<char>,
    pending_tool_calls: Vec<PendingCall>,
    ending: Option<Ending>,
    done: bool,
}

/// What is kept of a streamed reply.
pub struct IteratorModel {
    /// The text that has not been looked at yet.
    pub buffer: Seq<char>,
    pub pending: Seq<PendingModel>,
    /// How the reply ended, until that is handed out.
    pub ending: Option<EndingModel>,
    /// Whether nothing is left to hand out.
    pub done: bool,
}

impl View for DeepSeekStreamIterator {
    type V = IteratorModel;

    closed spec fn view(&self) -> IteratorModel {
        IteratorModel {
            buffer: self.buffer@,
            pending: self.pending_tool_calls.deep_view(),
            ending: self.ending.deep_view(),
            done: self.done,
        }
    }
}

impl IteratorModel {
    /// Whether the reply has ended, so that no more of it is read.
    pub open spec fn is_over(self) -> bool {
        self.done || self.ending is Some
    }

    /// What is kept after a document or a part of it.
    pub open spec fn after(self, up: TakenUp) -> IteratorModel {
        IteratorModel { pending: up.pending, ending: up.ending, done: up.done, ..self }
    }

    /// The chunk that comes of a document, and what is kept then. A document after
    /// the end of the reply is passed over.
    pub open spec fn take(self, document: ChatChunkModel) -> (Option<ChunkModel>, IteratorModel) {
        if self.is_over() {
            (None, self)
        } else {
            let up = taken_up(self.pending, document.choices, document.usage);
            (up.chunk, self.after(up))
        }
    }

    /// What is done next, and what is kept then.
    pub open spec fn step(self, at_end: bool) -> (ReplyStepModel, IteratorModel) {
        if self.done {
            (ReplyStepModel::End, self)
        } else {
            match self.ending {
                Some(ending) => {
                    let up = drained(self.pending, ending);
                    (ReplyStepModel::Chunk(up.chunk->0), self.after(up))
                },
                None => {
                    let (line, rest) = next_data(self.buffer, at_end);
                    (
                        match line {
                            SseStepModel::NeedBytes => ReplyStepModel::NeedBytes,
                            SseStepModel::Data(data) => ReplyStepModel::Document(data),
                            SseStepModel::End => ReplyStepModel::End,
                        },
                        IteratorModel { buffer: rest, done: line is End, ..self },
                    )
                },
            }
        }
    }
}

/// What is to be done next with a streamed reply.
#[derive(Debug)]
pub enum ReplyStep {
    /// To read more bytes.
    NeedBytes,
    /// To take up the document with this text.
    Document(String),
    /// To hand out this chunk.
    Chunk(StreamChunk),
    /// Nothing: the reply is over.
    End,
}

/// What is to be done next with a streamed reply.
pub enum ReplyStepModel {
    NeedBytes,
    Document(Seq<char>),
    Chunk(ChunkModel),
    End,
}

impl DeepView for ReplyStep {
    type V = ReplyStepModel;

    open spec fn deep_view(&self) -> ReplyStepModel {
        match *self {
            ReplyStep::NeedBytes => ReplyStepModel::NeedBytes,
            ReplyStep::Document(t) => ReplyStepModel::Document(t@),
            ReplyStep::Chunk(c) => ReplyStepModel::Chunk(c.deep_view()),
            ReplyStep::End => ReplyStepModel::End,
        }
    }
}

/// What a line means, if it means anything.
fn read_meaning(line: &Vec<char>) -> (r: Option<SseStep>)
    ensures
        r.deep_view() == line_meaning(line@),
{
    if text::equals(line, "data: [DONE]") {
        Some(SseStep::End)
    } else if text::starts_with(line, "data: ") {
        proof {
            reveal_strlit("data: ");
        }
        let data = text::slice(line, 6, line.len());
        assert(data@ =~= line@.skip(6));
        Some(SseStep::Data(text::string_of(&data)))
    } else {
        None
    }
}

/// The position of the first line feed.
fn find_line_feed(s: &Vec<char>) -> (r: Option<usize>)
    ensures
        match r {
            Some(p) => s@.index_of_first('\n') == Some(p as int) && p < s.len(),
            None => s@.index_of_first('\n') is None,
        },
{
    proof {
        s@.index_of_first_ensures('\n');
    }
    let mut i: usize = 0;
    while i < s.len()
        invariant
            i <= s.len(),
            forall|j: int| 0 <= j < i ==> s@[j] != '\n',
            match s@.index_of_first('\n') {
                Some(p) => 0 <= p < s.len() && s@[p] == '\n' && forall|j: int| 0 <= j < p ==> s@[j] != '\n',
                None => !s@.contains('\n'),
            },
        decreases s.len() - i,
    {
        if s[i] == '\n' {
            assert(s@.contains(s@[i as int]));
            return Some(i);
        }
        i = i + 1;
    }
    None
}

/// The value, or null if there is none.
pub fn json_or_null(parsed: Option<Json>) -> (r: Json)
    ensures
        r.model() == or_null(parsed.deep_view()),
{
    match parsed {
        Some(v) => v,
        None => Json::Null,
    }
}

/// What a tool is called with, given its arguments as they arrived.
pub fn parse_tool_input(arguments: &str) -> (r: Json)
    ensures
        r.model() == tool_input(arguments@),
{
    if arguments.is_empty() {
        Json::Object(no_fields())
    } else {
        json_or_null(Json::parse(arguments))
    }
}

/// The reason for which the language model stopped.
pub fn parse_stop_reason(reason: &str) -> (r: StopReason)
    ensures
        r == stop_reason(reason@),
{
    if text::same_text(reason, "tool_calls") {
        StopReason::ToolUse
    } else if text::same_text(reason, "length") {
        StopReason::MaxTokens
    } else {
        StopReason::EndTurn
    }
}

/// The tokens that the reply took.
pub fn read_usage(usage: Option<ApiUsage>) -> (r: Usage)
    ensures
        r.deep_view() == usage_of(usage),
{
    match usage {
        Some(u) => {
            let mut extra = no_fields();
            set_field(&mut extra, "prompt_cache_hit_tokens", Json::unsigned(u.prompt_cache_hit_tokens));
            set_field(&mut extra, "prompt_cache_miss_tokens", Json::unsigned(u.prompt_cache_miss_tokens));
            if let Some(details) = u.prompt_tokens_details {
                set_field(&mut extra, "cached_tokens", Json::unsigned(details.cached_tokens));
            }
            Usage { input_tokens: u.prompt_tokens, output_tokens: u.completion_tokens, extra }
        },
        None => Usage::default(),
    }
}

impl DeepSeekStreamIterator {
    /// A reader that has read nothing.
    pub fn new() -> (r: Self)
        ensures
            r@ == (IteratorModel { buffer: Seq::empty(), pending: Seq::empty(), ending: None, done: false }),
    {
        let r = DeepSeekStreamIterator {
            buffer: Vec::new(),
            pending_tool_calls: Vec::new(),
            ending: None,
            done: false,
        };
        assert(r@.pending =~= Seq::<PendingModel>::empty());
        r
    }

    /// Reads bytes of the reply.
    pub fn push_bytes(&mut self, bytes: &Vec<u8>)
        ensures
            final(self)@ == (IteratorModel { buffer: old(self)@.buffer + text::decoded(bytes@), ..old(self)@ }),
    {
        let read = text::from_utf8_lossy(bytes);
        let mut more = text::chars_of(read.as_str());
        self.buffer.append(&mut more);
    }

    /// What the next line that has a meaning says. `at_end` tells whether all bytes
    /// have been read.
    pub fn next_sse_line(&mut self, at_end: bool) -> (r: SseStep)
        ensures
            ({
                let (step, rest) = next_data(old(self)@.buffer, at_end);
                if old(self)@.is_over() {
                    r.deep_view() == SseStepModel::End && final(self)@ == old(self)@
                } else {
                    r.deep_view() == step && final(self)@ == (IteratorModel {
                        buffer: rest,
                        done: step is End,
                        ..old(self)@
                    })
                }
            }),
    {
        if self.done || self.ending.is_some() {
            return SseStep::End;
        }
        let ghost start = self.buffer@;
        let ghost pending = self.pending_tool_calls;
        loop
            invariant
                !self.done,
                !old(self)@.is_over(),
                self.ending is None,
                start == old(self)@.buffer,
                pending.deep_view() == old(self)@.pending,
                self.pending_tool_calls == pending,
                next_data(start, at_end) == next_data(self.buffer@, at_end),
            decreases self.buffer.len(),
        {
            match find_line_feed(&self.buffer) {
                Some(p) => {
                    let found = text::slice(&self.buffer, 0, p);
                    let rest = text::slice(&self.buffer, p + 1, self.buffer.len());
                    assert(found@ =~= self.buffer@.take(p as int));
                    assert(rest@ =~= self.buffer@.skip(p + 1));
                    let line = text::trimmed(&found);
                    self.buffer = rest;
                    match read_meaning(&line) {
                        Some(SseStep::End) => {
                            self.done = true;
                            return SseStep::End;
                        },
                        Some(step) => {
                            return step;
                        },
                        None => {},
                    }
                },
                None => {
                    if !at_end {
                        return SseStep::NeedBytes;
                    }
                    let line = text::trimmed(&self.buffer);
                    self.buffer = Vec::new();
                    match read_meaning(&line) {
                        Some(SseStep::Data(data)) => {
                            return SseStep::Data(data);
                        },
                        _ => {
                            self.done = true;
                            return SseStep::End;
                        },
                    }
                },
            }
        }
    }

    /// Takes up a piece of a tool call.
    fn take_piece(&mut self, piece: &ToolCallChunk)
        ensures
            final(self)@ == (IteratorModel {
                pending: with_piece(old(self)@.pending, piece.deep_view()),
                ..old(self)@
            }),
    {
        let ghost before = self.pending_tool_calls.deep_view();
        let ghost told = piece.deep_view();
        let mut i: usize = 0;
        assert(before.skip(0) =~= before);
        assert(before.take(0) + with_piece(before, told) =~= with_piece(before, told));
        while i < self.pending_tool_calls.len() && self.pending_tool_calls[i].index != piece.index
            invariant
                i <= self.pending_tool_calls.len(),
                self@ == old(self)@,
                before == self.pending_tool_calls.deep_view(),
                told == piece.deep_view(),
                with_piece(before, told) == before.take(i as int) + with_piece(before.skip(i as int), told),
            decreases self.pending_tool_calls.len() - i,
        {
            proof {
                let rest = before.skip(i as int);
                assert(rest.drop_first() =~= before.skip(i + 1));
                assert(before.take(i + 1) =~= before.take(i as int).push(before[i as int]));
                assert(before.take(i as int) + (seq![rest[0]] + with_piece(rest.drop_first(), told))
                    =~= before.take(i + 1) + with_piece(before.skip(i + 1), told));
            }
            i = i + 1;
        }
        let ghost at_end = i == self.pending_tool_calls.len();
        if i == self.pending_tool_calls.len() {
            self.pending_tool_calls.push(
                PendingCall { index: piece.index, id: None, name: None, arguments: String::new() },
            );
            assert(self.pending_tool_calls.deep_view() =~= before.push(no_pieces(piece.index)));
        }
        let ghost middle = self.pending_tool_calls.deep_view();
        let found = &self.pending_tool_calls[i];
        let id = match &piece.id {
            Some(id) => Some(id.clone()),
            None => match &found.id {
                Some(id) => Some(id.clone()),
                None => None,
            },
        };
        let name = match &piece.function.name {
            Some(name) => Some(name.clone()),
            None => match &found.name {
                Some(name) => Some(name.clone()),
                None => None,
            },
        };
        let mut arguments = found.arguments.clone();
        if let Some(more) = &piece.function.arguments {
            arguments.append(more.as_str());
        }
        let index = found.index;
        self.pending_tool_calls.set(i, PendingCall { index, id, name, arguments });
        proof {
            let rest = before.skip(i as int);
            assert(self.pending_tool_calls.deep_view() =~= middle.update(
                i as int,
                extended(middle[i as int], told),
            ));
            if at_end {
                assert(rest =~= Seq::<PendingModel>::empty());
                assert(self.pending_tool_calls.deep_view() =~= before.take(i as int) + with_piece(rest, told));
            } else {
                assert(rest[0] == before[i as int]);
                assert(self.pending_tool_calls.deep_view() =~= before.take(i as int) + with_piece(rest, told));
            }
        }
    }

    /// What comes next once the reply has ended.
    fn drain(&mut self, ending: Ending) -> (r: StreamChunk)
        requires
            old(self)@.ending is None,
            !old(self)@.done,
        ensures
            ({
                let up = drained(old(self)@.pending, ending.deep_view());
                Some(r.deep_view()) == up.chunk && final(self)@ == old(self)@.after(up)
            }),
    {
        let ghost before = self@;
        while self.pending_tool_calls.len() > 0
            invariant
                before == old(self)@,
                before.ending is None,
                !before.done,
                self@ == (IteratorModel { pending: self@.pending, ..before }),
                drained(before.pending, ending.deep_view()) == drained(self@.pending, ending.deep_view()),
            decreases self.pending_tool_calls.len(),
        {
            let ghost left = self.pending_tool_calls.deep_view();
            let call = self.pending_tool_calls.remove(0);
            assert(self.pending_tool_calls.deep_view() =~= left.drop_first());
            assert(left[0] == call.deep_view());
            if let (Some(id), Some(name)) = (call.id, call.name) {
                let input = parse_tool_input(call.arguments.as_str());
                self.ending = Some(ending);
                return StreamChunk::ToolUse { id, name, input };
            }
        }
        self.done = true;
        StreamChunk::Finished { stop_reason: ending.stop_reason, usage: ending.usage }
    }

    /// Takes up a choice.
    fn take_choice(&mut self, choice: &ChoiceDelta, usage: Option<ApiUsage>) -> (r: Option<StreamChunk>)
        requires
            !old(self)@.is_over(),
        ensures
            ({
                let up = choice_taken_up(old(self)@.pending, choice.deep_view(), usage);
                r.deep_view() == up.chunk && final(self)@ == old(self)@.after(up)
            }),
            r is None ==> !final(self)@.is_over(),
    {
        if let Some(content) = &choice.delta.content {
            if !content.as_str().is_empty() {
                return Some(StreamChunk::Text(content.clone()));
            }
        }
        if let Some(pieces) = &choice.delta.tool_calls {
            let ghost before = self@;
            let ghost told = pieces.deep_view();
            let mut i: usize = 0;
            assert(told.take(0) =~= Seq::<ToolCallChunkModel>::empty());
            while i < pieces.len()
                invariant
                    i <= pieces.len(),
                    told == pieces.deep_view(),
                    self@ == (IteratorModel {
                        pending: with_pieces(before.pending, told.take(i as int)),
                        ..before
                    }),
                decreases pieces.len() - i,
            {
                self.take_piece(&pieces[i]);
                assert(told.take(i + 1).drop_last() =~= told.take(i as int));
                i = i + 1;
            }
            assert(told.take(told.len() as int) =~= told);
        }
        match &choice.finish_reason {
            Some(reason) => Some(
                self.drain(Ending { stop_reason: parse_stop_reason(reason.as_str()), usage: read_usage(usage) }),
            ),
            None => None,
        }
    }

    /// Takes up a document of the reply and returns the chunk that comes of it.
    pub fn take_chunk(&mut self, chunk: ChatChunk) -> (r: Option<StreamChunk>)
        ensures
            (r.deep_view(), final(self)@) == old(self)@.take(chunk.deep_view()),
    {
        if self.done || self.ending.is_some() {
            return None;
        }
        let ghost before = self@;
        let ghost choices = chunk.choices.deep_view();
        let mut i: usize = 0;
        assert(choices.skip(0) =~= choices);
        while i < chunk.choices.len()
            invariant
                i <= chunk.choices.len(),
                before == old(self)@,
                !before.is_over(),
                choices == chunk.choices.deep_view(),
                self@ == (IteratorModel { pending: self@.pending, ..before }),
                taken_up(before.pending, choices, chunk.usage) == taken_up(
                    self@.pending,
                    choices.skip(i as int),
                    chunk.usage,
                ),
            decreases chunk.choices.len() - i,
        {
            assert(choices.skip(i as int)[0] == choices[i as int]);
            assert(choices.skip(i as int).drop_first() =~= choices.skip(i + 1));
            let r = self.take_choice(&chunk.choices[i], chunk.usage);
            if r.is_some() {
                return r;
            }
            i = i + 1;
        }
        None
    }

    /// What is to be done next. `at_end` tells whether all bytes have been read.
    pub fn next(&mut self, at_end: bool) -> (r: ReplyStep)
        ensures
            (r.deep_view(), final(self)@) == old(self)@.step(at_end),
    {
        if self.done {
            return ReplyStep::End;
        }
        if let Some(ending) = self.ending.take() {
            return ReplyStep::Chunk(self.drain(ending));
        }
        match self.next_sse_line(at_end) {
            SseStep::NeedBytes => ReplyStep::NeedBytes,
            SseStep::Data(data) => ReplyStep::Document(data),
            SseStep::End => ReplyStep::End,
        }
    }
}

// ---------------------------------------------------------------------------
// What holds of the reading
// ---------------------------------------------------------------------------

/// The arguments that the pieces bring for the tool call `index`, one after the
/// other.
pub open spec fn arguments_for(pieces: Seq<ToolCallChunkModel>, index: u32) -> Seq<char>
    decreases pieces.len(),
{
    if pieces.len() == 0 {
        Seq::empty()
    } else {
        let before = arguments_for(pieces.drop_last(), index);
        match pieces.last().arguments {
            Some(more) if pieces.last().index == index => before + more,
            _ => before,
        }
    }
}

/// Whether each tool call is pending once.
pub open spec fn indices_distinct(pending: Seq<PendingModel>) -> bool {
    forall|i: int, j: int|
        0 <= i < j < pending.len() ==> (#[trigger] pending[i]).index != (#[trigger] pending[j]).index
}

proof fn lemma_with_piece(pending: Seq<PendingModel>, piece: ToolCallChunkModel)
    requires
        indices_distinct(pending),
    ensures
        ({
            let after = with_piece(pending, piece);
            &&& indices_distinct(after)
            &&& forall|j: int|
                0 <= j < after.len() && (#[trigger] after[j]).index != piece.index ==> j < pending.len()
                    && pending[j] == after[j]
            &&& exists|j: int|
                0 <= j < after.len() && (#[trigger] after[j]) == extended(
                    if j < pending.len() {
                        pending[j]
                    } else {
                        no_pieces(piece.index)
                    },
                    piece,
                ) && after[j].index == piece.index
            &&& after.len() >= pending.len()
            &&& forall|j: int| 0 <= j < pending.len() ==> (#[trigger] after[j]).index == pending[j].index
            &&& after.len() > pending.len() ==> after.len() == pending.len() + 1 && after.last().index == piece.index
                && forall|j: int| 0 <= j < pending.len() ==> (#[trigger] pending[j]).index != piece.index
        }),
    decreases pending.len(),
{
    let after = with_piece(pending, piece);
    if pending.len() == 0 {
        assert(after[0] == extended(no_pieces(piece.index), piece));
    } else if pending[0].index == piece.index {
        assert(after[0] == extended(pending[0], piece));
        assert forall|j: int| 0 < j < after.len() implies (#[trigger] after[j]) == pending[j] by {
            assert(after[j] == pending.drop_first()[j - 1]);
        }
    } else {
        let rest = pending.drop_first();
        assert forall|i: int, j: int| 0 <= i < j < rest.len() implies (#[trigger] rest[i]).index != (
        #[trigger] rest[j]).index by {
            assert(rest[i] == pending[i + 1]);
            assert(rest[j] == pending[j + 1]);
        }
        lemma_with_piece(rest, piece);
        let tail = with_piece(rest, piece);
        assert forall|j: int| 0 < j < after.len() implies (#[trigger] after[j]) == tail[j - 1] by {}
        assert forall|j: int| 0 <= j < rest.len() implies (#[trigger] rest[j]) == pending[j + 1] by {}
        let k = choose|j: int|
            0 <= j < tail.len() && (#[trigger] tail[j]) == extended(
                if j < rest.len() {
                    rest[j]
                } else {
                    no_pieces(piece.index)
                },
                piece,
            ) && tail[j].index == piece.index;
        assert(after[k + 1] == tail[k]);
        assert forall|i: int, j: int| 0 <= i < j < after.len() implies (#[trigger] after[i]).index != (
        #[trigger] after[j]).index by {
            if i > 0 {
                assert(after[i] == tail[i - 1]);
                assert(after[j] == tail[j - 1]);
            } else {
                assert(after[j] == tail[j - 1]);
                if j - 1 < rest.len() {
                    assert(tail[j - 1].index == rest[j - 1].index);
                    assert(rest[j - 1] == pending[j]);
                }
            }
        }
        assert forall|j: int| 0 <= j < after.len() && (#[trigger] after[j]).index != piece.index implies j
            < pending.len() && pending[j] == after[j] by {
            if j > 0 {
                assert(after[j] == tail[j - 1]);
            }
        }
        assert forall|j: int| 0 <= j < pending.len() implies (#[trigger] after[j]).index == pending[j].index by {
            if j > 0 {
                assert(after[j] == tail[j - 1]);
                assert(rest[j - 1] == pending[j]);
            }
        }
        if after.len() > pending.len() {
            assert(after.last() == tail.last());
            assert forall|j: int| 0 <= j < pending.len() implies (#[trigger] pending[j]).index != piece.index by {
                if j > 0 {
                    assert(rest[j - 1] == pending[j]);
                }
            }
        }
    }
}

/// Pieces find their tool call: whatever the order in which the pieces of several
/// tool calls arrive, each tool call is pending once, with the arguments that its
/// own pieces brought, one after the other.
pub proof fn lemma_pieces_find_their_call(pieces: Seq<ToolCallChunkModel>)
    ensures
        ({
            let pending = with_pieces(Seq::empty(), pieces);
            &&& indices_distinct(pending)
            &&& forall|j: int|
                0 <= j < pending.len() ==> (#[trigger] pending[j]).arguments == arguments_for(
                    pieces,
                    pending[j].index,
                )
            &&& forall|index: u32|
                (forall|j: int| 0 <= j < pending.len() ==> (#[trigger] pending[j]).index != index)
                    ==> #[trigger] arguments_for(pieces, index) == Seq::<char>::empty()
        }),
    decreases pieces.len(),
{
    if pieces.len() > 0 {
        let piece = pieces.last();
        let before = with_pieces(Seq::empty(), pieces.drop_last());
        let pending = with_pieces(Seq::empty(), pieces);
        lemma_pieces_find_their_call(pieces.drop_last());
        lemma_with_piece(before, piece);
        assert forall|j: int| 0 <= j < pending.len() implies (#[trigger] pending[j]).arguments == arguments_for(
            pieces,
            pending[j].index,
        ) by {
            if pending[j].index != piece.index {
                assert(before[j] == pending[j]);
            } else {
                let k = choose|k: int|
                    0 <= k < pending.len() && (#[trigger] pending[k]) == extended(
                        if k < before.len() {
                            before[k]
                        } else {
                            no_pieces(piece.index)
                        },
                        piece,
                    ) && pending[k].index == piece.index;
                assert(k == j);
                if j >= before.len() {
                    assert(arguments_for(pieces.drop_last(), piece.index) == Seq::<char>::empty());
                    assert(no_pieces(piece.index).arguments == Seq::<char>::empty());
                }
            }
        }
        assert forall|index: u32|
            (forall|j: int| 0 <= j < pending.len() ==> (#[trigger] pending[j]).index != index) implies
            #[trigger] arguments_for(pieces, index) == Seq::<char>::empty() by {
            let k = choose|k: int|
                0 <= k < pending.len() && (#[trigger] pending[k]) == extended(
                    if k < before.len() {
                        before[k]
                    } else {
                        no_pieces(piece.index)
                    },
                    piece,
                ) && pending[k].index == piece.index;
            assert(pending[k].index != index);
            assert forall|j: int| 0 <= j < before.len() implies (#[trigger] before[j]).index != index by {
                assert(pending[j].index == before[j].index);
            }
            assert(arguments_for(pieces.drop_last(), index) == Seq::<char>::empty());
        }
    }
}

/// The tool calls that are complete, in the order in which they began.
pub open spec fn complete_calls(pending: Seq<PendingModel>) -> Seq<PendingModel>
    decreases pending.len(),
{
    if pending.len() == 0 {
        Seq::empty()
    } else if is_complete(pending[0]) {
        seq![pending[0]] + complete_calls(pending.drop_first())
    } else {
        complete_calls(pending.drop_first())
    }
}

/// What is kept after further text of the reply.
pub open spec fn with_text(m: IteratorModel, more: Seq<char>) -> IteratorModel {
    IteratorModel { buffer: m.buffer + more, ..m }
}

/// What is done step by step, given for each step the text that arrives before it
/// and whether all bytes have been read.
pub open spec fn steps(m: IteratorModel, input: Seq<(Seq<char>, bool)>) -> Seq<ReplyStepModel>
    decreases input.len(),
{
    if input.len() == 0 {
        Seq::empty()
    } else {
        let (step, after) = with_text(m, input[0].0).step(input[0].1);
        seq![step] + steps(after, input.drop_first())
    }
}

/// What is done at the end of a reply, from the first step on: each complete tool
/// call is handed out, in the order in which they began, then the end, and then
/// nothing.
pub open spec fn last_step(pending: Seq<PendingModel>, ending: EndingModel, i: int) -> ReplyStepModel {
    let calls = complete_calls(pending);
    if i < calls.len() {
        ReplyStepModel::Chunk(tool_use(calls[i]))
    } else if i == calls.len() {
        ReplyStepModel::Chunk(finished(ending))
    } else {
        ReplyStepModel::End
    }
}

proof fn lemma_drained(pending: Seq<PendingModel>, ending: EndingModel)
    ensures
        ({
            let up = drained(pending, ending);
            &&& up.chunk is Some
            &&& ReplyStepModel::Chunk(up.chunk->0) == last_step(pending, ending, 0)
            &&& complete_calls(pending).len() == 0 ==> up.done && up.ending is None
            &&& complete_calls(pending).len() > 0 ==> !up.done && up.ending == Some(ending) && complete_calls(up.pending)
                == complete_calls(pending).drop_first()
        }),
    decreases pending.len(),
{
    if pending.len() > 0 {
        if is_complete(pending[0]) {
            assert(complete_calls(pending).drop_first() =~= complete_calls(pending.drop_first()));
        } else {
            lemma_drained(pending.drop_first(), ending);
        }
    }
}

proof fn lemma_steps_len(m: IteratorModel, input: Seq<(Seq<char>, bool)>)
    ensures
        steps(m, input).len() == input.len(),
    decreases input.len(),
{
    if input.len() > 0 {
        lemma_steps_len(with_text(m, input[0].0).step(input[0].1).1, input.drop_first());
    }
}

/// Once nothing is left to hand out, nothing is done any more, whatever text
/// arrives.
pub proof fn lemma_over_for_good(m: IteratorModel, input: Seq<(Seq<char>, bool)>, i: int)
    requires
        m.done,
        0 <= i < input.len(),
    ensures
        steps(m, input)[i] == ReplyStepModel::End,
    decreases input.len(),
{
    if i > 0 {
        let rest = input.drop_first();
        let after = with_text(m, input[0].0);
        lemma_steps_len(after, rest);
        lemma_over_for_good(after, rest, i - 1);
    }
}

proof fn lemma_last_steps(m: IteratorModel, input: Seq<(Seq<char>, bool)>, i: int)
    requires
        !m.done,
        m.ending is Some,
        0 <= i < input.len(),
    ensures
        steps(m, input)[i] == last_step(m.pending, m.ending->0, i),
    decreases input.len(),
{
    lemma_drained(m.pending, m.ending->0);
    let rest = input.drop_first();
    let after = with_text(m, input[0].0).step(input[0].1).1;
    if i > 0 {
        lemma_steps_len(after, rest);
        assert(steps(m, input)[i] == steps(after, rest)[i - 1]);
        if complete_calls(m.pending).len() == 0 {
            lemma_over_for_good(after, rest, i - 1);
        } else {
            lemma_last_steps(after, rest, i - 1);
            assert(complete_calls(after.pending) == complete_calls(m.pending).drop_first());
        }
    }
}

/// No tool call is lost: from the document that ends the reply, every complete tool
/// call is handed out, in the order in which they began, then the reason and the
/// tokens of that document, and then nothing, whatever text arrives in between.
pub proof fn lemma_all_calls_come_out(
    m: IteratorModel,
    document: ChatChunkModel,
    input: Seq<(Seq<char>, bool)>,
    i: int,
)
    requires
        !m.is_over(),
        document.choices.len() > 0,
        document.choices[0].content is Some ==> document.choices[0].content->0.len() == 0,
        document.choices[0].finish_reason is Some,
        0 <= i < input.len(),
    ensures
        ({
            let (chunk, after) = m.take(document);
            let pending = with_choice(m.pending, document.choices[0]);
            let ending = EndingModel {
                stop_reason: stop_reason(document.choices[0].finish_reason->0),
                usage: usage_of(document.usage),
            };
            &&& chunk is Some
            &&& ReplyStepModel::Chunk(chunk->0) == last_step(pending, ending, 0)
            &&& steps(after, input)[i] == last_step(pending, ending, i + 1)
        }),
{
    let pending = with_choice(m.pending, document.choices[0]);
    let ending = EndingModel {
        stop_reason: stop_reason(document.choices[0].finish_reason->0),
        usage: usage_of(document.usage),
    };
    let after = m.take(document).1;
    lemma_drained(pending, ending);
    assert(choice_taken_up(m.pending, document.choices[0], document.usage) == drained(pending, ending));
    if complete_calls(pending).len() == 0 {
        lemma_over_for_good(after, input, i);
    } else {
        lemma_last_steps(after, input, i);
        assert(complete_calls(after.pending) == complete_calls(pending).drop_first());
    }
}

/// The document that ends a reply without tool calls gives the reason and its own
/// tokens, none if it does not tell them, and after it nothing is done any more,
/// whatever text arrives.
pub proof fn lemma_reply_ends(
    m: IteratorModel,
    reason: Seq<char>,
    usage: Option<ApiUsage>,
    input: Seq<(Seq<char>, bool)>,
    i: int,
)
    requires
        !m.is_over(),
        m.pending.len() == 0,
        0 <= i < input.len(),
    ensures
        ({
            let choice = ChoiceModel { content: None, tool_calls: None, finish_reason: Some(reason) };
            let (chunk, after) = m.take(ChatChunkModel { choices: seq![choice], usage });
            &&& chunk is Some
            &&& chunk->0 matches ChunkModel::Finished { stop_reason: why, usage: tokens }
            &&& why == stop_reason(reason)
            &&& tokens.input_tokens == match usage {
                Some(u) => u.prompt_tokens as nat,
                None => 0,
            }
            &&& tokens.output_tokens == match usage {
                Some(u) => u.completion_tokens as nat,
                None => 0,
            }
            &&& steps(after, input)[i] == ReplyStepModel::End
        }),
{
    let choice = ChoiceModel { content: None, tool_calls: None, finish_reason: Some(reason) };
    lemma_all_calls_come_out(m, ChatChunkModel { choices: seq![choice], usage }, input, i);
}

/// Where the text of the reply is cut does not matter: when the reader needs more
/// bytes, it goes on as if it had read all of them at once.
pub proof fn lemma_reading_resumes(a: Seq<char>, b: Seq<char>, at_end: bool)
    requires
        next_data(a, false).0 is NeedBytes,
    ensures
        next_data(a + b, at_end) == next_data(next_data(a, false).1 + b, at_end),
    decreases a.len(),
{
    a.index_of_first_ensures('\n');
    if let Some(p) = a.index_of_first('\n') {
        let whole = a + b;
        whole.index_of_first_ensures('\n');
        assert(whole[p] == '\n');
        assert(whole.contains(whole[p]));
        let q = whole.index_of_first('\n')->0;
        assert(whole[q] == '\n');
        if q < p {
            assert(a[q] == '\n');
        }
        if p < q {
            assert(whole[p] != '\n');
        }
        assert(p == q);
        assert(whole.take(p) =~= a.take(p));
        assert(whole.skip(p + 1) =~= a.skip(p + 1) + b);
        lemma_reading_resumes(a.skip(p + 1), b, at_end);
    }
}

} // verus!
