//! What a streamed reply says: its text, the tool calls that it asks for and how it
//! ended, in terms of the documents that it came in.

use vstd::prelude::*;
use crate::ai::deepseek::stream::{
    ApiUsage, ChatChunkModel, ChoiceModel, EndingModel, IteratorModel, PendingModel, ReplyStepModel, SseStepModel,
    ToolCallChunkModel,
};
use crate::ai::stream::{ChunkModel, StopReason};
use crate::json::JsonModel;

verus! {

// ---------------------------------------------------------------------------
// The text
// ---------------------------------------------------------------------------

/// Whether a choice says nothing that is handed out at once.
pub open spec fn is_silent(choice: ChoiceModel) -> bool {
    (choice.content is Some ==> choice.content->0.len() == 0) && choice.finish_reason is None
}

/// The text of a choice is handed on character for character, and nothing else of what
/// is kept changes.
pub proof fn lemma_text_is_handed_on(m: IteratorModel, document: ChatChunkModel, text: Seq<char>)
    requires
        !m.is_over(),
        document.choices.len() > 0,
        document.choices[0].content == Some(text),
        text.len() > 0,
    ensures
        m.take(document) == (Some(ChunkModel::Text(text)), m),
{
}

proof fn lemma_taken_behind(
    pending: Seq<PendingModel>,
    choices: Seq<ChoiceModel>,
    usage: Option<ApiUsage>,
    k: int,
    text: Seq<char>,
)
    requires
        0 <= k < choices.len(),
        forall|j: int| 0 <= j < k ==> is_silent(#[trigger] choices[j]),
        choices[k].content == Some(text),
        text.len() > 0,
    ensures
        crate::ai::deepseek::stream::taken_up(pending, choices, usage).chunk == Some(ChunkModel::Text(text)),
    decreases k,
{
    if k > 0 {
        assert(is_silent(choices[0]));
        let rest = choices.drop_first();
        assert forall|j: int| 0 <= j < k - 1 implies is_silent(#[trigger] rest[j]) by {
            assert(rest[j] == choices[j + 1]);
        }
        lemma_taken_behind(
            crate::ai::deepseek::stream::with_choice(pending, choices[0]),
            rest,
            usage,
            k - 1,
            text,
        );
    }
}

/// Choices that say nothing do not stand in the way of the text of one behind them.
pub proof fn lemma_text_behind_silent_choices(m: IteratorModel, document: ChatChunkModel, k: int, text: Seq<char>)
    requires
        !m.is_over(),
        0 <= k < document.choices.len(),
        forall|j: int| 0 <= j < k ==> is_silent(#[trigger] document.choices[j]),
        document.choices[k].content == Some(text),
        text.len() > 0,
    ensures
        m.take(document).0 == Some(ChunkModel::Text(text)),
{
    lemma_taken_behind(m.pending, document.choices, document.usage, k, text);
}

/// What is handed out of documents that arrive one after the other.
pub open spec fn handed_out(m: IteratorModel, documents: Seq<ChatChunkModel>) -> Seq<ChunkModel>
    decreases documents.len(),
{
    if documents.len() == 0 {
        Seq::empty()
    } else {
        let before = handed_out(m, documents.drop_last());
        match kept(m, documents.drop_last()).take(documents.last()).0 {
            Some(chunk) => before.push(chunk),
            None => before,
        }
    }
}

/// What is kept of documents that arrive one after the other.
pub open spec fn kept(m: IteratorModel, documents: Seq<ChatChunkModel>) -> IteratorModel
    decreases documents.len(),
{
    if documents.len() == 0 {
        m
    } else {
        kept(m, documents.drop_last()).take(documents.last()).1
    }
}

/// The texts of the documents' choices, one after the other.
pub open spec fn contents(documents: Seq<ChatChunkModel>) -> Seq<Seq<char>>
    decreases documents.len(),
{
    if documents.len() == 0 {
        Seq::empty()
    } else {
        let before = contents(documents.drop_last());
        match documents.last().choices[0].content {
            Some(text) if text.len() > 0 => before.push(text),
            _ => before,
        }
    }
}

/// The pieces of tool calls that the documents without text bring, one after the other.
pub open spec fn pieces_in(documents: Seq<ChatChunkModel>) -> Seq<ToolCallChunkModel>
    decreases documents.len(),
{
    if documents.len() == 0 {
        Seq::empty()
    } else {
        let before = pieces_in(documents.drop_last());
        let choice = documents.last().choices[0];
        match (choice.content, choice.tool_calls) {
            (Some(text), _) if text.len() > 0 => before,
            (_, Some(pieces)) => before + pieces,
            (_, None) => before,
        }
    }
}

/// Whether a document has a single choice and does not end the reply: it gives no reason
/// for stopping, or it brings text, for which the reason is passed over.
pub open spec fn goes_on(document: ChatChunkModel) -> bool {
    document.choices.len() == 1 && (document.choices[0].finish_reason is None || (document.choices[0].content is Some
        && document.choices[0].content->0.len() > 0))
}

proof fn lemma_pieces_of_both(
    pending: Seq<PendingModel>,
    a: Seq<ToolCallChunkModel>,
    b: Seq<ToolCallChunkModel>,
)
    ensures
        crate::ai::deepseek::stream::with_pieces(pending, a + b) == crate::ai::deepseek::stream::with_pieces(
            crate::ai::deepseek::stream::with_pieces(pending, a),
            b,
        ),
    decreases b.len(),
{
    if b.len() == 0 {
        assert(a + b =~= a);
    } else {
        lemma_pieces_of_both(pending, a, b.drop_last());
        assert((a + b).drop_last() =~= a + b.drop_last());
    }
}

/// All of the reply's text is handed on, and no other: what is handed out while the reply
/// goes on are the texts of its documents, in their order, character for character. The
/// pieces of tool calls are kept for the end.
pub proof fn lemma_reply_text(m: IteratorModel, documents: Seq<ChatChunkModel>)
    requires
        !m.is_over(),
        forall|k: int| 0 <= k < documents.len() ==> goes_on(#[trigger] documents[k]),
    ensures
        handed_out(m, documents) == contents(documents).map_values(|text: Seq<char>| ChunkModel::Text(text)),
        kept(m, documents) == (IteratorModel {
            pending: crate::ai::deepseek::stream::with_pieces(m.pending, pieces_in(documents)),
            ..m
        }),
    decreases documents.len(),
{
    let texts = contents(documents).map_values(|text: Seq<char>| ChunkModel::Text(text));
    if documents.len() > 0 {
        let earlier = documents.drop_last();
        assert forall|k: int| 0 <= k < earlier.len() implies goes_on(#[trigger] earlier[k]) by {
            assert(earlier[k] == documents[k]);
        }
        lemma_reply_text(m, earlier);
        let document = documents.last();
        assert(goes_on(documents[documents.len() - 1]));
        let choice = document.choices[0];
        let before = kept(m, earlier);
        assert(!before.is_over());
        if choice.content is Some && choice.content->0.len() > 0 {
            lemma_text_is_handed_on(before, document, choice.content->0);
        } else {
            assert(document.choices.drop_first().len() == 0);
            let pieces = match choice.tool_calls {
                Some(pieces) => pieces,
                None => Seq::empty(),
            };
            lemma_pieces_of_both(m.pending, pieces_in(earlier), pieces);
            assert(crate::ai::deepseek::stream::taken_up(
                crate::ai::deepseek::stream::with_choice(before.pending, choice),
                document.choices.drop_first(),
                document.usage,
            ).chunk is None);
        }
        assert(handed_out(m, documents) =~= texts);
    } else {
        assert(handed_out(m, documents) =~= texts);
    }
}

/// Texts one after the other.
pub open spec fn run_together(texts: Seq<Seq<char>>) -> Seq<char>
    decreases texts.len(),
{
    if texts.len() == 0 {
        Seq::empty()
    } else {
        run_together(texts.drop_last()) + texts.last()
    }
}

/// What the reader hands out comes, read as one text, to what the documents say.
pub proof fn lemma_reply_reads_as_one_text(m: IteratorModel, documents: Seq<ChatChunkModel>)
    requires
        !m.is_over(),
        forall|k: int| 0 <= k < documents.len() ==> goes_on(#[trigger] documents[k]),
    ensures
        crate::agent::run::text_in(handed_out(m, documents)) == run_together(contents(documents)),
{
    lemma_reply_text(m, documents);
    lemma_texts_read_as_one(contents(documents));
}

proof fn lemma_texts_read_as_one(texts: Seq<Seq<char>>)
    ensures
        crate::agent::run::text_in(texts.map_values(|text: Seq<char>| ChunkModel::Text(text))) == run_together(texts),
    decreases texts.len(),
{
    if texts.len() > 0 {
        lemma_texts_read_as_one(texts.drop_last());
        assert(texts.map_values(|text: Seq<char>| ChunkModel::Text(text)).drop_last()
            =~= texts.drop_last().map_values(|text: Seq<char>| ChunkModel::Text(text)));
    }
}

/// The pieces of tool calls that choices bring, one after the other.
pub open spec fn pieces_of(choices: Seq<ChoiceModel>) -> Seq<ToolCallChunkModel>
    decreases choices.len(),
{
    if choices.len() == 0 {
        Seq::empty()
    } else {
        let rest = pieces_of(choices.drop_first());
        match choices[0].tool_calls {
            Some(pieces) => pieces + rest,
            None => rest,
        }
    }
}

proof fn lemma_taken_silently(pending: Seq<PendingModel>, choices: Seq<ChoiceModel>, usage: Option<ApiUsage>)
    requires
        forall|j: int| 0 <= j < choices.len() ==> is_silent(#[trigger] choices[j]),
    ensures
        ({
            let up = crate::ai::deepseek::stream::taken_up(pending, choices, usage);
            &&& up.chunk is None
            &&& up.ending is None
            &&& !up.done
            &&& up.pending == crate::ai::deepseek::stream::with_pieces(pending, pieces_of(choices))
        }),
    decreases choices.len(),
{
    if choices.len() > 0 {
        assert(is_silent(choices[0]));
        let rest = choices.drop_first();
        assert forall|j: int| 0 <= j < rest.len() implies is_silent(#[trigger] rest[j]) by {
            assert(rest[j] == choices[j + 1]);
        }
        let next = crate::ai::deepseek::stream::with_choice(pending, choices[0]);
        lemma_taken_silently(next, rest, usage);
        if let Some(pieces) = choices[0].tool_calls {
            lemma_pieces_of_both(pending, pieces, pieces_of(rest));
        }
    }
}

/// A document that says nothing to hand out at once is handed out nothing of, and all pieces
/// of tool calls in it are kept, in their order.
pub proof fn lemma_silent_document(m: IteratorModel, document: ChatChunkModel)
    requires
        !m.is_over(),
        forall|j: int| 0 <= j < document.choices.len() ==> is_silent(#[trigger] document.choices[j]),
    ensures
        m.take(document) == (
            None::<ChunkModel>,
            IteratorModel {
                pending: crate::ai::deepseek::stream::with_pieces(m.pending, pieces_of(document.choices)),
                ..m
            },
        ),
{
    lemma_taken_silently(m.pending, document.choices, document.usage);
}

// ---------------------------------------------------------------------------
// Tool calls
// ---------------------------------------------------------------------------

/// The id that the pieces told last for the tool call `index`.
pub open spec fn id_told(pieces: Seq<ToolCallChunkModel>, index: u32) -> Option<Seq<char>>
    decreases pieces.len(),
{
    if pieces.len() == 0 {
        None
    } else if pieces.last().index == index && pieces.last().id is Some {
        pieces.last().id
    } else {
        id_told(pieces.drop_last(), index)
    }
}

/// The name that the pieces told last for the tool call `index`.
pub open spec fn name_told(pieces: Seq<ToolCallChunkModel>, index: u32) -> Option<Seq<char>>
    decreases pieces.len(),
{
    if pieces.len() == 0 {
        None
    } else if pieces.last().index == index && pieces.last().name is Some {
        pieces.last().name
    } else {
        name_told(pieces.drop_last(), index)
    }
}

/// The indices of the tool calls, in the order in which their first pieces arrived.
pub open spec fn order_begun(pieces: Seq<ToolCallChunkModel>) -> Seq<u32>
    decreases pieces.len(),
{
    if pieces.len() == 0 {
        Seq::empty()
    } else {
        let before = order_begun(pieces.drop_last());
        if before.contains(pieces.last().index) {
            before
        } else {
            before.push(pieces.last().index)
        }
    }
}

/// The tool call `index`, as its pieces tell it.
pub open spec fn call_told(pieces: Seq<ToolCallChunkModel>, index: u32) -> PendingModel {
    PendingModel {
        index,
        id: id_told(pieces, index),
        name: name_told(pieces, index),
        arguments: crate::ai::deepseek::stream::arguments_for(pieces, index),
    }
}

proof fn lemma_piece_goes_to_its_call(
    pending: Seq<PendingModel>,
    order: Seq<u32>,
    pieces: Seq<ToolCallChunkModel>,
    piece: ToolCallChunkModel,
)
    requires
        pending.len() == order.len(),
        order.no_duplicates(),
        forall|j: int| 0 <= j < order.len() ==> #[trigger] pending[j] == call_told(pieces, order[j]),
        !order.contains(piece.index) ==> call_told(pieces, piece.index) == (PendingModel {
            index: piece.index,
            id: None,
            name: None,
            arguments: Seq::empty(),
        }),
    ensures
        ({
            let after = crate::ai::deepseek::stream::with_piece(pending, piece);
            let more = if order.contains(piece.index) {
                order
            } else {
                order.push(piece.index)
            };
            &&& after.len() == more.len()
            &&& forall|j: int|
                0 <= j < more.len() ==> #[trigger] after[j] == call_told(pieces.push(piece), more[j])
        }),
    decreases pending.len(),
{
    let after = crate::ai::deepseek::stream::with_piece(pending, piece);
    let all = pieces.push(piece);
    assert(all.drop_last() =~= pieces);
    assert(all.last() == piece);
    if pending.len() > 0 {
        let rest = pending.drop_first();
        let others = order.drop_first();
        assert(pending[0] == call_told(pieces, order[0]));
        assert forall|j: int| 0 <= j < others.len() implies #[trigger] rest[j] == call_told(pieces, others[j]) by {
            assert(rest[j] == pending[j + 1]);
        }
        if order[0] == piece.index {
            assert(order.contains(order[0]));
            assert forall|j: int| 0 <= j < order.len() implies #[trigger] after[j] == call_told(all, order[j]) by {
                if j > 0 {
                    assert(after[j] == rest[j - 1]);
                    assert(order[j] != order[0]);
                }
            }
        } else {
            assert(order.contains(piece.index) ==> others.contains(piece.index)) by {
                if order.contains(piece.index) {
                    let j = choose|j: int| 0 <= j < order.len() && order[j] == piece.index;
                    assert(others[j - 1] == piece.index);
                }
            }
            assert(others.contains(piece.index) ==> order.contains(piece.index)) by {
                if others.contains(piece.index) {
                    let j = choose|j: int| 0 <= j < others.len() && others[j] == piece.index;
                    assert(order[j + 1] == piece.index);
                }
            }
            lemma_piece_goes_to_its_call(rest, others, pieces, piece);
            let tail = crate::ai::deepseek::stream::with_piece(rest, piece);
            let more = if order.contains(piece.index) {
                order
            } else {
                order.push(piece.index)
            };
            let fewer = if others.contains(piece.index) {
                others
            } else {
                others.push(piece.index)
            };
            assert forall|j: int| 0 <= j < more.len() implies #[trigger] after[j] == call_told(all, more[j]) by {
                if j > 0 {
                    assert(after[j] == tail[j - 1]);
                    assert(more[j] == fewer[j - 1]);
                }
            }
        }
    }
}

proof fn lemma_nothing_told(pieces: Seq<ToolCallChunkModel>, index: u32)
    requires
        !order_begun(pieces).contains(index),
    ensures
        call_told(pieces, index) == (PendingModel { index, id: None, name: None, arguments: Seq::empty() }),
    decreases pieces.len(),
{
    if pieces.len() > 0 {
        let before = order_begun(pieces.drop_last());
        let all = order_begun(pieces);
        if before.contains(index) {
            let j = choose|j: int| 0 <= j < before.len() && before[j] == index;
            assert(all[j] == index);
        }
        if pieces.last().index == index && !before.contains(index) {
            assert(all[all.len() - 1] == index);
        }
        lemma_nothing_told(pieces.drop_last(), index);
    }
}

proof fn lemma_begun_once(pieces: Seq<ToolCallChunkModel>)
    ensures
        order_begun(pieces).no_duplicates(),
    decreases pieces.len(),
{
    if pieces.len() > 0 {
        let before = order_begun(pieces.drop_last());
        lemma_begun_once(pieces.drop_last());
        let all = order_begun(pieces);
        assert forall|i: int, j: int| 0 <= i < j < all.len() implies all[i] != all[j] by {
            assert(before[i] == all[i]);
            if j < before.len() {
                assert(before[j] == all[j]);
            } else {
                assert(before.contains(before[i]));
            }
        }
    }
}

/// Tool calls are put together from their pieces: in whatever order the pieces of several
/// calls arrive, each call has the id and the name that its own pieces told last, and
/// their arguments one after the other; and the calls stand in the order in which they
/// began.
pub proof fn lemma_calls_are_put_together(pieces: Seq<ToolCallChunkModel>)
    ensures
        ({
            let pending = crate::ai::deepseek::stream::with_pieces(Seq::empty(), pieces);
            let order = order_begun(pieces);
            &&& pending.len() == order.len()
            &&& order.no_duplicates()
            &&& forall|j: int| 0 <= j < order.len() ==> #[trigger] pending[j] == call_told(pieces, order[j])
        }),
    decreases pieces.len(),
{
    lemma_begun_once(pieces);
    if pieces.len() > 0 {
        let earlier = pieces.drop_last();
        let piece = pieces.last();
        lemma_calls_are_put_together(earlier);
        if !order_begun(earlier).contains(piece.index) {
            lemma_nothing_told(earlier, piece.index);
        }
        lemma_piece_goes_to_its_call(
            crate::ai::deepseek::stream::with_pieces(Seq::empty(), earlier),
            order_begun(earlier),
            earlier,
            piece,
        );
        assert(earlier.push(piece) =~= pieces);
    }
}

/// What a call asks a tool with: nothing said is an empty object, and what is no document
/// is null.
pub proof fn lemma_input_of_a_call(arguments: Seq<char>)
    ensures
        arguments.len() == 0 ==> crate::ai::deepseek::stream::tool_input(arguments) == JsonModel::Object(Map::empty()),
        arguments.len() > 0 ==> match crate::json::parsed_text(arguments) {
            Some(document) => crate::ai::deepseek::stream::tool_input(arguments) == document,
            None => crate::ai::deepseek::stream::tool_input(arguments) == JsonModel::Null,
        },
{
}

/// When the reply has ended, the calls are handed out from the first on, each with its
/// own id, its own name and what its arguments say; a call without an id or a name is
/// passed over; and behind the last the reason and the tokens are told, once.
pub proof fn lemma_end_of_the_reply(m: IteratorModel, ending: EndingModel, at_end: bool)
    requires
        !m.done,
        m.ending == Some(ending),
    ensures
        m.pending.len() > 0 && m.pending[0].id is Some && m.pending[0].name is Some ==> m.step(at_end) == (
            ReplyStepModel::Chunk(
                ChunkModel::ToolUse {
                    id: m.pending[0].id->0,
                    name: m.pending[0].name->0,
                    input: crate::ai::deepseek::stream::tool_input(m.pending[0].arguments),
                },
            ),
            IteratorModel { pending: m.pending.skip(1), ..m },
        ),
        m.pending.len() > 0 && (m.pending[0].id is None || m.pending[0].name is None) ==> m.step(at_end)
            == (IteratorModel { pending: m.pending.skip(1), ..m }).step(at_end),
        m.pending.len() == 0 ==> m.step(at_end) == (
            ReplyStepModel::Chunk(
                ChunkModel::Finished { stop_reason: ending.stop_reason, usage: ending.usage },
            ),
            IteratorModel { ending: None, done: true, ..m },
        ),
{
    if m.pending.len() > 0 {
        assert(m.pending.drop_first() =~= m.pending.skip(1));
    }
}

/// The chunks of the tool calls with these indices, as their pieces tell them. A call of
/// which the id or the name was not told is none.
pub open spec fn calls_told(pieces: Seq<ToolCallChunkModel>, order: Seq<u32>) -> Seq<ChunkModel>
    decreases order.len(),
{
    if order.len() == 0 {
        Seq::empty()
    } else {
        let rest = calls_told(pieces, order.drop_first());
        match (id_told(pieces, order[0]), name_told(pieces, order[0])) {
            (Some(id), Some(name)) => seq![
                ChunkModel::ToolUse {
                    id,
                    name,
                    input: crate::ai::deepseek::stream::tool_input(
                        crate::ai::deepseek::stream::arguments_for(pieces, order[0]),
                    ),
                },
            ] + rest,
            _ => rest,
        }
    }
}

proof fn lemma_calls_told(pending: Seq<PendingModel>, pieces: Seq<ToolCallChunkModel>, order: Seq<u32>)
    requires
        pending.len() == order.len(),
        forall|j: int| 0 <= j < order.len() ==> #[trigger] pending[j] == call_told(pieces, order[j]),
    ensures
        ({
            let calls = crate::ai::deepseek::stream::complete_calls(pending);
            let told = calls_told(pieces, order);
            &&& calls.len() == told.len()
            &&& forall|i: int|
                0 <= i < calls.len() ==> crate::ai::deepseek::stream::tool_use(#[trigger] calls[i]) == told[i]
        }),
    decreases order.len(),
{
    if order.len() > 0 {
        let (rest, others) = (pending.drop_first(), order.drop_first());
        assert(pending[0] == call_told(pieces, order[0]));
        assert forall|j: int| 0 <= j < others.len() implies #[trigger] rest[j] == call_told(pieces, others[j]) by {
            assert(rest[j] == pending[j + 1]);
        }
        lemma_calls_told(rest, pieces, others);
        let calls = crate::ai::deepseek::stream::complete_calls(pending);
        let fewer = crate::ai::deepseek::stream::complete_calls(rest);
        let told = calls_told(pieces, order);
        assert forall|i: int| 0 <= i < calls.len() implies crate::ai::deepseek::stream::tool_use(#[trigger] calls[i])
            == told[i] by {
            if calls.len() > fewer.len() && i > 0 {
                assert(calls[i] == fewer[i - 1]);
            }
        }
    }
}

/// What is handed out at the end of a reply, from the document that ends it on: each call that
/// its pieces told in full, in the order in which they began, then the reason and the tokens,
/// and then nothing.
pub open spec fn end_told(
    pieces: Seq<ToolCallChunkModel>,
    reason: Seq<char>,
    usage: Option<ApiUsage>,
    i: int,
) -> ReplyStepModel {
    let calls = calls_told(pieces, order_begun(pieces));
    if i < calls.len() {
        ReplyStepModel::Chunk(calls[i])
    } else if i == calls.len() {
        ReplyStepModel::Chunk(
            ChunkModel::Finished {
                stop_reason: crate::ai::deepseek::stream::stop_reason(reason),
                usage: crate::ai::deepseek::stream::usage_of(usage),
            },
        )
    } else {
        ReplyStepModel::End
    }
}

/// A whole reply: while it goes on its texts are handed out as they come; from the document on
/// that ends it, every tool call that its pieces told in full is handed out, however the
/// pieces were spread over the documents, then the reason and the tokens, once, and then
/// nothing, whatever else arrives.
pub proof fn lemma_whole_reply(
    m: IteratorModel,
    documents: Seq<ChatChunkModel>,
    last: ChatChunkModel,
    reason: Seq<char>,
    input: Seq<(Seq<char>, bool)>,
    i: int,
)
    requires
        !m.is_over(),
        m.pending.len() == 0,
        forall|k: int| 0 <= k < documents.len() ==> goes_on(#[trigger] documents[k]),
        last.choices.len() == 1,
        last.choices[0].content is None || last.choices[0].content->0.len() == 0,
        last.choices[0].finish_reason == Some(reason),
        0 <= i < input.len(),
    ensures
        ({
            let (chunk, after) = kept(m, documents).take(last);
            let pieces = pieces_in(documents.push(last));
            &&& handed_out(m, documents) == contents(documents).map_values(|text: Seq<char>| ChunkModel::Text(text))
            &&& chunk is Some
            &&& ReplyStepModel::Chunk(chunk->0) == end_told(pieces, reason, last.usage, 0)
            &&& crate::ai::deepseek::stream::steps(after, input)[i] == end_told(pieces, reason, last.usage, i + 1)
        }),
{
    lemma_reply_text(m, documents);
    let before = kept(m, documents);
    let all = documents.push(last);
    assert(all.drop_last() =~= documents);
    let pieces = pieces_in(all);
    let pending = crate::ai::deepseek::stream::with_choice(before.pending, last.choices[0]);
    assert(m.pending =~= Seq::empty());
    let brought = match last.choices[0].tool_calls {
        Some(brought) => brought,
        None => Seq::empty(),
    };
    lemma_pieces_of_both(Seq::empty(), pieces_in(documents), brought);
    assert(pieces_in(documents) + brought =~= pieces);
    assert(pending == crate::ai::deepseek::stream::with_pieces(Seq::empty(), pieces));
    lemma_calls_are_put_together(pieces);
    lemma_calls_told(pending, pieces, order_begun(pieces));
    crate::ai::deepseek::stream::lemma_all_calls_come_out(before, last, input, i);
}

// ---------------------------------------------------------------------------
// The end
// ---------------------------------------------------------------------------

/// The reasons that the language model gives for stopping.
pub proof fn lemma_reasons(reason: Seq<char>)
    ensures
        crate::ai::deepseek::stream::stop_reason(reason) == StopReason::ToolUse <==> reason == "tool_calls"@,
        crate::ai::deepseek::stream::stop_reason(reason) == StopReason::MaxTokens <==> reason == "length"@,
        crate::ai::deepseek::stream::stop_reason(reason) == StopReason::EndTurn <==> reason != "tool_calls"@ && reason
            != "length"@,
{
    reveal_strlit("tool_calls");
    reveal_strlit("length");
    assert("tool_calls"@.len() != "length"@.len());
}

/// The tokens that a reply took are told as the last document tells them, with what was
/// found in the cache; a document that tells none counts for none.
pub proof fn lemma_tokens_are_told(u: ApiUsage)
    ensures
        ({
            let usage = crate::ai::deepseek::stream::usage_of(Some(u));
            let hit = "prompt_cache_hit_tokens"@;
            let miss = "prompt_cache_miss_tokens"@;
            let cached = "cached_tokens"@;
            &&& usage.input_tokens == u.prompt_tokens
            &&& usage.output_tokens == u.completion_tokens
            &&& usage.extra.contains_key(hit) && usage.extra[hit] == JsonModel::Number(
                crate::json::number_from_u64(u.prompt_cache_hit_tokens),
            )
            &&& usage.extra.contains_key(miss) && usage.extra[miss] == JsonModel::Number(
                crate::json::number_from_u64(u.prompt_cache_miss_tokens),
            )
            &&& usage.extra.contains_key(cached) <==> u.prompt_tokens_details is Some
            &&& u.prompt_tokens_details matches Some(details) ==> usage.extra[cached] == JsonModel::Number(
                crate::json::number_from_u64(details.cached_tokens),
            )
            &&& forall|key: Seq<char>| #[trigger]
                usage.extra.contains_key(key) ==> key == hit || key == miss || key == cached
        }),
        ({
            let usage = crate::ai::deepseek::stream::usage_of(None);
            usage.input_tokens == 0 && usage.output_tokens == 0 && usage.extra == Map::<Seq<char>, JsonModel>::empty()
        }),
{
    reveal_strlit("prompt_cache_hit_tokens");
    reveal_strlit("prompt_cache_miss_tokens");
    reveal_strlit("cached_tokens");
    assert("prompt_cache_hit_tokens"@.len() == 23);
    assert("prompt_cache_miss_tokens"@.len() == 24);
    assert("cached_tokens"@.len() == 13);
}

/// The document that ends the reply is told with its own reason and tokens, behind the
/// calls: if there is none, at once.
pub proof fn lemma_last_document(m: IteratorModel, document: ChatChunkModel, reason: Seq<char>)
    requires
        !m.is_over(),
        m.pending.len() == 0,
        document.choices.len() > 0,
        document.choices[0].content is None || document.choices[0].content->0.len() == 0,
        document.choices[0].tool_calls is None,
        document.choices[0].finish_reason == Some(reason),
    ensures
        m.take(document) == (
            Some(
                ChunkModel::Finished {
                    stop_reason: crate::ai::deepseek::stream::stop_reason(reason),
                    usage: crate::ai::deepseek::stream::usage_of(document.usage),
                },
            ),
            IteratorModel { done: true, ..m },
        ),
{
}

/// What arrives behind the end is passed over.
pub proof fn lemma_nothing_behind_the_end(m: IteratorModel, document: ChatChunkModel, at_end: bool)
    requires
        m.done || m.ending is Some,
    ensures
        m.take(document) == (None::<ChunkModel>, m),
        m.done ==> m.step(at_end) == (ReplyStepModel::End, m),
{
}

// ---------------------------------------------------------------------------
// The lines
// ---------------------------------------------------------------------------

/// Further text of the reply is put behind what has not been looked at yet, and changes
/// nothing else.
pub proof fn lemma_text_is_put_behind(m: IteratorModel, a: Seq<char>, b: Seq<char>)
    ensures
        crate::ai::deepseek::stream::with_text(m, a).buffer == m.buffer + a,
        crate::ai::deepseek::stream::with_text(m, a) == (IteratorModel {
            buffer: crate::ai::deepseek::stream::with_text(m, a).buffer,
            ..m
        }),
        crate::ai::deepseek::stream::with_text(crate::ai::deepseek::stream::with_text(m, a), b)
            == crate::ai::deepseek::stream::with_text(m, a + b),
{
    assert(m.buffer + a + b =~= m.buffer + (a + b));
}

/// A line, or what stands before the first line feed.
proof fn lemma_first_line(line: Seq<char>, rest: Seq<char>)
    requires
        !line.contains('\n'),
    ensures
        ({
            let all = line + "\n"@ + rest;
            &&& all.index_of_first('\n') == Some(line.len() as int)
            &&& all.take(line.len() as int) == line
            &&& all.skip((line.len() + 1) as int) == rest
        }),
        line.index_of_first('\n') is None,
{
    reveal_strlit("\n");
    let all = line + "\n"@ + rest;
    all.index_of_first_ensures('\n');
    line.index_of_first_ensures('\n');
    assert(all[line.len() as int] == '\n');
    assert(all.contains('\n'));
    let p = all.index_of_first('\n')->0;
    if p < line.len() {
        assert(line[p] == '\n');
        assert(line.contains(line[p]));
    }
    if p > line.len() {
        assert(all[line.len() as int] != '\n');
    }
    assert(all.take(line.len() as int) =~= line);
    assert(all.skip((line.len() + 1) as int) =~= rest);
}

/// A line that holds a document, however it is set off with white space, gives the text
/// of the document, character for character, and the reader goes on behind the line.
pub proof fn lemma_document_of_a_line(
    lead: Seq<char>,
    data: Seq<char>,
    tail: Seq<char>,
    rest: Seq<char>,
    at_end: bool,
)
    requires
        crate::spelling::is_blank(lead),
        crate::spelling::is_blank(tail),
        data.len() > 0,
        !crate::text::is_white_space(data.last()),
        !lead.contains('\n'),
        !data.contains('\n'),
        !tail.contains('\n'),
        data != "[DONE]"@,
    ensures
        ({
            let line = lead + "data: "@ + data + tail;
            &&& crate::ai::deepseek::stream::next_data(line + "\n"@ + rest, at_end) == (
                SseStepModel::Data(data),
                rest,
            )
            &&& crate::ai::deepseek::stream::next_data(line, true) == (SseStepModel::Data(data), Seq::<char>::empty())
            &&& crate::ai::deepseek::stream::next_data(line, false) == (SseStepModel::NeedBytes, line)
        }),
{
    reveal_strlit("data: ");
    reveal_strlit("[DONE]");
    reveal_strlit("data: [DONE]");
    let line = lead + "data: "@ + data + tail;
    let core = "data: "@ + data;
    assert(line =~= lead + core + tail);
    crate::spelling::lemma_trim_cuts_off_white_space(lead, core, tail);
    assert(core.take(6) =~= "data: "@);
    assert(core.subrange(0, 6) =~= "data: "@);
    assert(core.skip(6) =~= data);
    lemma_no_line_feed(lead, core, tail);
    lemma_first_line(line, rest);
    if core == "data: [DONE]"@ {
        assert("data: [DONE]"@.skip(6) =~= "[DONE]"@);
    }
}

proof fn lemma_no_line_feed(lead: Seq<char>, core: Seq<char>, tail: Seq<char>)
    requires
        !lead.contains('\n'),
        !tail.contains('\n'),
        core.len() >= 6,
        core.take(6) == "data: "@,
        !core.skip(6).contains('\n'),
    ensures
        !(lead + core + tail).contains('\n'),
{
    reveal_strlit("data: ");
    let line = lead + core + tail;
    assert forall|i: int| 0 <= i < line.len() implies #[trigger] line[i] != '\n' by {
        if i < lead.len() {
            assert(lead.contains(lead[i]));
        } else if i < lead.len() + 6 {
            assert(core.take(6)[i - lead.len()] == line[i]);
        } else if i < lead.len() + core.len() {
            assert(core.skip(6)[i - lead.len() - 6] == line[i]);
            assert(core.skip(6).contains(line[i]));
        } else {
            assert(tail.contains(tail[i - lead.len() - core.len()]));
        }
    }
}

/// The line that says that the reply is over ends it.
pub proof fn lemma_done_line(rest: Seq<char>, at_end: bool)
    ensures
        crate::ai::deepseek::stream::next_data("data: [DONE]"@ + "\n"@ + rest, at_end) == (SseStepModel::End, rest),
{
    reveal_strlit("data: [DONE]");
    let line = "data: [DONE]"@;
    let none = Seq::<char>::empty();
    assert(!line.contains('\n'));
    lemma_first_line(line, rest);
    crate::spelling::lemma_trim_cuts_off_white_space(none, line, none);
    assert(none + line + none =~= line);
}

/// An empty line, a comment or a line of another kind is passed over: the reader does
/// what it would do without it.
pub proof fn lemma_other_lines_are_passed_over(line: Seq<char>, rest: Seq<char>, at_end: bool)
    requires
        !line.contains('\n'),
        crate::spelling::is_bare(line),
        line.len() < 6 || line.subrange(0, 6) != "data: "@,
    ensures
        crate::ai::deepseek::stream::next_data(line + "\n"@ + rest, at_end) == crate::ai::deepseek::stream::next_data(
            rest,
            at_end,
        ),
{
    reveal_strlit("data: [DONE]");
    reveal_strlit("data: ");
    let none = Seq::<char>::empty();
    lemma_first_line(line, rest);
    crate::spelling::lemma_trim_cuts_off_white_space(none, line, none);
    assert(none + line + none =~= line);
    assert("data: [DONE]"@.subrange(0, 6) =~= "data: "@);
}

/// While the reply goes on, each line's document is handed out to be read, and what is
/// kept else stays; when the reply says that it is over, nothing is left to hand out.
pub proof fn lemma_step_reads_a_line(m: IteratorModel, at_end: bool)
    requires
        !m.is_over(),
    ensures
        ({
            let (line, rest) = crate::ai::deepseek::stream::next_data(m.buffer, at_end);
            let (step, after) = m.step(at_end);
            &&& line is NeedBytes ==> step is NeedBytes
            &&& line is End ==> step is End
            &&& line matches SseStepModel::Data(data) ==> step == ReplyStepModel::Document(data)
            &&& after == (IteratorModel { buffer: rest, done: line is End, ..m })
        }),
{
}

} // verus!
