//! What holds of the words of a command.

use vstd::prelude::*;
use crate::text;

verus! {

proof fn lemma_suffix_in_last_piece(s: Seq<char>, t: Seq<char>, sep: spec_fn(char) -> bool)
    requires
        text::has_suffix(s, t),
        forall|i: int| 0 <= i < t.len() ==> !sep(#[trigger] t[i]),
    ensures
        text::has_suffix(text::split(s, sep).last(), t),
    decreases t.len(),
{
    text::lemma_split_is_not_empty(s, sep);
    let piece = text::split(s, sep).last();
    let n = s.len() - t.len();
    if t.len() == 0 {
        assert(piece.subrange(piece.len() as int, piece.len() as int) =~= t);
    } else {
        let (x, y) = (s.drop_last(), t.drop_last());
        assert(s.subrange(n, s.len() as int)[t.len() - 1] == s.last());
        assert(t[t.len() - 1] == s.last());
        assert(x.subrange(n, x.len() as int) =~= s.subrange(n, s.len() as int).drop_last());
        assert forall|i: int| 0 <= i < y.len() implies !sep(#[trigger] y[i]) by {
            assert(y[i] == t[i]);
        }
        lemma_suffix_in_last_piece(x, y, sep);
        text::lemma_split_is_not_empty(x, sep);
        let before = text::split(x, sep).last();
        assert(piece == before.push(s.last()));
        let m = before.len() - y.len();
        assert(piece.subrange(m, piece.len() as int) =~= before.subrange(m, before.len() as int).push(s.last()));
        assert(piece.subrange(m, piece.len() as int) =~= t);
    }
}

proof fn lemma_last_piece_is_suffix(s: Seq<char>, sep: spec_fn(char) -> bool)
    ensures
        text::has_suffix(s, text::split(s, sep).last()),
    decreases s.len(),
{
    text::lemma_split_is_not_empty(s, sep);
    let piece = text::split(s, sep).last();
    if s.len() == 0 || sep(s.last()) {
        assert(s.subrange(s.len() as int, s.len() as int) =~= piece);
    } else {
        let x = s.drop_last();
        lemma_last_piece_is_suffix(x, sep);
        text::lemma_split_is_not_empty(x, sep);
        let before = text::split(x, sep).last();
        let n = x.len() - before.len();
        assert(s.subrange(n, s.len() as int) =~= x.subrange(n, x.len() as int).push(s.last()));
    }
}

/// Whether a text occurs in one of the pieces.
spec fn in_some_piece(pieces: Seq<Seq<char>>, t: Seq<char>) -> bool {
    exists|k: int| 0 <= k < pieces.len() && text::has_infix(#[trigger] pieces[k], t)
}

proof fn lemma_infix_in_piece(s: Seq<char>, t: Seq<char>, sep: spec_fn(char) -> bool)
    requires
        text::has_infix(s, t),
        t.len() > 0,
        forall|i: int| 0 <= i < t.len() ==> !sep(#[trigger] t[i]),
    ensures
        in_some_piece(text::split(s, sep), t),
    decreases s.len(),
{
    let all = text::split(s, sep);
    text::lemma_split_is_not_empty(s, sep);
    let i = choose|i: int| text::occurs_at(s, t, i);
    if i + t.len() == s.len() {
        lemma_suffix_in_last_piece(s, t, sep);
        let piece = all[all.len() - 1];
        assert(text::occurs_at(piece, t, piece.len() - t.len()));
    } else {
        let x = s.drop_last();
        assert(x.subrange(i, i + t.len()) =~= s.subrange(i, i + t.len()));
        assert(text::occurs_at(x, t, i));
        lemma_infix_in_piece(x, t, sep);
        let before = text::split(x, sep);
        let k = choose|k: int| 0 <= k < before.len() && text::has_infix(#[trigger] before[k], t);
        if sep(s.last()) || k < before.len() - 1 {
            assert(all[k] == before[k]);
        } else {
            crate::tool::compound::lemma_longer_infix(before[k], seq![s.last()], t);
            assert(before[k] + seq![s.last()] =~= all[k]);
        }
    }
}

proof fn lemma_piece_is_infix(s: Seq<char>, k: int, sep: spec_fn(char) -> bool)
    requires
        0 <= k < text::split(s, sep).len(),
    ensures
        text::has_infix(s, text::split(s, sep)[k]),
    decreases s.len(),
{
    let all = text::split(s, sep);
    if k == all.len() - 1 {
        lemma_last_piece_is_suffix(s, sep);
        assert(text::occurs_at(s, all[k], s.len() - all[k].len()));
    } else {
        let x = s.drop_last();
        assert(all[k] == text::split(x, sep)[k]);
        lemma_piece_is_infix(x, k, sep);
        crate::tool::compound::lemma_longer_infix(x, seq![s.last()], all[k]);
        assert(x + seq![s.last()] =~= s);
    }
}

proof fn lemma_infix_of_infix(s: Seq<char>, t: Seq<char>, u: Seq<char>)
    requires
        text::has_infix(s, t),
        text::has_infix(t, u),
    ensures
        text::has_infix(s, u),
{
    let i = choose|i: int| text::occurs_at(s, t, i);
    let j = choose|j: int| text::occurs_at(t, u, j);
    assert(s.subrange(i + j, i + j + u.len()) =~= t.subrange(j, j + u.len()));
    assert(text::occurs_at(s, u, i + j));
}

proof fn lemma_word_is_a_piece(pieces: Seq<Seq<char>>, j: int) -> (k: int)
    requires
        0 <= j < pieces.filter(|w: Seq<char>| w.len() > 0).len(),
    ensures
        0 <= k < pieces.len(),
        pieces[k] == pieces.filter(|w: Seq<char>| w.len() > 0)[j],
    decreases pieces.len(),
{
    reveal(Seq::filter);
    let before = pieces.drop_last().filter(|w: Seq<char>| w.len() > 0);
    if j < before.len() {
        lemma_word_is_a_piece(pieces.drop_last(), j)
    } else {
        pieces.len() - 1
    }
}

proof fn lemma_small_pieces(s: Seq<char>)
    ensures
        text::split(text::ascii_lowercase(s), |c: char| text::is_white_space(c)) == text::split(
            s,
            |c: char| text::is_white_space(c),
        ).map_values(|w: Seq<char>| text::ascii_lowercase(w)),
    decreases s.len(),
{
    let sep = |c: char| text::is_white_space(c);
    let small = |w: Seq<char>| text::ascii_lowercase(w);
    let low = text::ascii_lowercase(s);
    text::lemma_split_is_not_empty(s, sep);
    if s.len() == 0 {
        assert(low =~= s);
        assert(text::split(s, sep).map_values(small) =~= text::split(low, sep)) by {
            assert(small(Seq::<char>::empty()) =~= Seq::<char>::empty());
        }
    } else {
        let x = s.drop_last();
        lemma_small_pieces(x);
        text::lemma_split_is_not_empty(x, sep);
        assert(low.drop_last() =~= text::ascii_lowercase(x));
        let before = text::split(x, sep);
        let c = s.last();
        assert(sep(low.last()) == sep(c));
        if sep(c) {
            assert(small(Seq::<char>::empty()) =~= Seq::<char>::empty());
        } else {
            assert(small(before.last().push(c)) =~= small(before.last()).push(text::ascii_small(c)));
        }
        assert(text::split(s, sep).map_values(small) =~= text::split(low, sep));
    }
}

proof fn lemma_word_is_plain(s: Seq<char>, j: int)
    requires
        text::is_plain(s),
        0 <= j < text::words(s).len(),
    ensures
        text::is_plain(text::words(s)[j]),
{
    let sep = |c: char| text::is_white_space(c);
    let pieces = text::split(s, sep);
    let word = text::words(s)[j];
    let k = lemma_word_is_a_piece(pieces, j);
    lemma_piece_is_infix(s, k, sep);
    let i = choose|i: int| text::occurs_at(s, word, i);
    assert forall|n: int| 0 <= n < word.len() implies text::has_plain_case(#[trigger] word[n]) by {
        assert(s.subrange(i, i + word.len())[n] == s[i + n]);
    }
}

proof fn lemma_small_words(s: Seq<char>, t: Seq<char>)
    requires
        text::is_plain(s),
        t.len() > 0,
        forall|i: int| 0 <= i < t.len() ==> !text::is_white_space(#[trigger] t[i]),
    ensures
        text::has_infix(text::lower(s), t) <==> exists|j: int|
            0 <= j < text::words(s).len() && text::has_infix(text::lower(#[trigger] text::words(s)[j]), t),
{
    let sep = |c: char| text::is_white_space(c);
    let full = |w: Seq<char>| w.len() > 0;
    let small = |w: Seq<char>| text::ascii_lowercase(w);
    let low = text::ascii_lowercase(s);
    let (pieces, words) = (text::split(s, sep), text::words(s));
    let lowered = text::split(low, sep);
    pieces.filter_lemma(full);
    lemma_small_pieces(s);
    assert(lowered.len() == pieces.len());
    if text::has_infix(low, t) {
        lemma_infix_in_piece(low, t, sep);
        let k = choose|k: int| 0 <= k < lowered.len() && text::has_infix(#[trigger] lowered[k], t);
        assert(lowered[k] == small(pieces[k]));
        assert(full(pieces[k]));
        assert(words.contains(pieces[k]));
        let j = choose|j: int| 0 <= j < words.len() && words[j] == pieces[k];
        lemma_word_is_plain(s, j);
        assert(text::has_infix(text::lower(words[j]), t));
    }
    if exists|j: int| 0 <= j < words.len() && text::has_infix(text::lower(#[trigger] words[j]), t) {
        let j = choose|j: int| 0 <= j < words.len() && text::has_infix(text::lower(#[trigger] words[j]), t);
        lemma_word_is_plain(s, j);
        let k = lemma_word_is_a_piece(pieces, j);
        assert(lowered[k] == small(pieces[k]));
        lemma_piece_is_infix(low, k, sep);
        lemma_infix_of_infix(low, lowered[k], t);
    }
}

proof fn lemma_verbs_are_words(k: int)
    requires
        0 <= k < crate::tool::bash::shutdown_verbs().len(),
    ensures
        ({
            let verb = crate::tool::bash::shutdown_verbs()[k];
            verb.len() > 0 && forall|i: int| 0 <= i < verb.len() ==> !text::is_white_space(#[trigger] verb[i])
        }),
{
    reveal_strlit("shutdown");
    reveal_strlit("reboot");
    reveal_strlit("halt");
    reveal_strlit("poweroff");
    reveal_strlit("stop");
}

/// Whether a service manager is told to stop something shows in the words of the
/// command exactly if it shows in all of the command, where its lower case is known.
pub proof fn lemma_stopping_word_shows(cmd: Seq<char>)
    requires
        text::is_plain(cmd),
    ensures
        crate::tool::bash::has_stopping_word(text::words(cmd)) <==> crate::tool::bash::service_manager_reason(
            text::lower(cmd),
        ) is Some,
{
    let verbs = crate::tool::bash::shutdown_verbs();
    let words = text::words(cmd);
    if crate::tool::bash::has_stopping_word(words) {
        let j = choose|j: int|
            0 <= j < words.len() && crate::tool::bash::service_manager_reason(text::lower(#[trigger] words[j])) is Some;
        let k = choose|k: int| 0 <= k < verbs.len() && text::has_infix(text::lower(words[j]), #[trigger] verbs[k]);
        lemma_verbs_are_words(k);
        lemma_small_words(cmd, verbs[k]);
        assert(text::has_infix(text::lower(cmd), verbs[k]));
    }
    if text::has_infix_of(text::lower(cmd), verbs) {
        let k = choose|k: int| 0 <= k < verbs.len() && text::has_infix(text::lower(cmd), #[trigger] verbs[k]);
        lemma_verbs_are_words(k);
        lemma_small_words(cmd, verbs[k]);
        let j = choose|j: int|
            0 <= j < words.len() && text::has_infix(text::lower(#[trigger] words[j]), verbs[k]);
        assert(text::has_infix_of(text::lower(words[j]), verbs));
    }
}

} // verus!
