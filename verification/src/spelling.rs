//! What the operations on text come to: how a text that is put together from parts is
//! taken apart again.

use vstd::prelude::*;

verus! {

// ---------------------------------------------------------------------------
// White space
// ---------------------------------------------------------------------------

/// Whether all characters of a text are white space.
pub open spec fn is_blank(s: Seq<char>) -> bool {
    forall|i: int| 0 <= i < s.len() ==> crate::text::is_white_space(#[trigger] s[i])
}

/// Whether a text neither begins nor ends with white space.
pub open spec fn is_bare(s: Seq<char>) -> bool {
    s.len() > 0 ==> !crate::text::is_white_space(s[0]) && !crate::text::is_white_space(s.last())
}

/// The white space of ASCII is the space and what stands from the tabulator to the carriage
/// return; beyond ASCII it is the characters with these numbers.
pub proof fn lemma_white_space(c: char)
    ensures
        (c as int) < 0x80 ==> (crate::text::is_white_space(c) <==> c == ' ' || c == '\t' || c == '\n' || c == '\r'
            || c as int == 0xb || c as int == 0xc),
        (c as int) >= 0x80 ==> (crate::text::is_white_space(c) <==> {
            ||| c as int == 0x85
            ||| c as int == 0xa0
            ||| c as int == 0x1680
            ||| 0x2000 <= c as int && c as int <= 0x200a
            ||| c as int == 0x2028
            ||| c as int == 0x2029
            ||| c as int == 0x202f
            ||| c as int == 0x205f
            ||| c as int == 0x3000
        }),
{
}

proof fn lemma_blank_start(lead: Seq<char>, s: Seq<char>)
    requires
        is_blank(lead),
        s.len() > 0 ==> !crate::text::is_white_space(s[0]),
    ensures
        crate::text::trim_start(lead + s) == s,
    decreases lead.len(),
{
    if lead.len() == 0 {
        assert(lead + s =~= s);
    } else {
        let rest = lead.drop_first();
        assert(crate::text::is_white_space(lead[0]));
        assert((lead + s).drop_first() =~= rest + s);
        assert forall|i: int| 0 <= i < rest.len() implies crate::text::is_white_space(#[trigger] rest[i]) by {
            assert(rest[i] == lead[i + 1]);
        }
        lemma_blank_start(rest, s);
    }
}

proof fn lemma_blank_end(s: Seq<char>, tail: Seq<char>)
    requires
        is_blank(tail),
        s.len() > 0 ==> !crate::text::is_white_space(s.last()),
    ensures
        crate::text::trim_end(s + tail) == s,
    decreases tail.len(),
{
    if tail.len() == 0 {
        assert(s + tail =~= s);
    } else {
        let rest = tail.drop_last();
        assert(crate::text::is_white_space(tail[tail.len() - 1]));
        assert((s + tail).drop_last() =~= s + rest);
        lemma_blank_end(s, rest);
    }
}

/// White space round a text is cut off, and nothing else.
pub proof fn lemma_trim_cuts_off_white_space(lead: Seq<char>, s: Seq<char>, tail: Seq<char>)
    requires
        is_blank(lead),
        is_bare(s),
        is_blank(tail),
    ensures
        crate::text::trim(lead + s + tail) == s,
{
    if s.len() == 0 {
        let all = lead + tail;
        assert(lead + s + tail =~= all + s);
        assert forall|i: int| 0 <= i < all.len() implies crate::text::is_white_space(#[trigger] all[i]) by {
            if i < lead.len() {
                assert(all[i] == lead[i]);
            } else {
                assert(all[i] == tail[i - lead.len()]);
            }
        }
        lemma_blank_start(all, s);
    } else {
        assert(lead + s + tail =~= lead + (s + tail));
        lemma_blank_start(lead, s + tail);
        lemma_blank_end(s, tail);
    }
}

// ---------------------------------------------------------------------------
// Parts of a text
// ---------------------------------------------------------------------------

proof fn lemma_part_at_the_beginning(p: Seq<char>, b: Seq<char>)
    ensures
        crate::text::has_prefix(p + b, p),
{
    assert((p + b).subrange(0, p.len() as int) =~= p);
}

proof fn lemma_part_at_the_end(a: Seq<char>, p: Seq<char>)
    ensures
        crate::text::has_suffix(a + p, p),
{
    let s = a + p;
    assert(s.subrange(s.len() - p.len(), s.len() as int) =~= p);
}

proof fn lemma_part_somewhere(a: Seq<char>, p: Seq<char>, b: Seq<char>)
    ensures
        crate::text::has_infix(a + p + b, p),
{
    let s = a + p + b;
    assert(s.subrange(a.len() as int, (a.len() + p.len()) as int) =~= p);
    assert(crate::text::occurs_at(s, p, a.len() as int));
}

/// A text has a part at its beginning, at its end or somewhere if and only if it can be
/// put together from that part and what stands round it.
pub proof fn lemma_parts(s: Seq<char>, p: Seq<char>)
    ensures
        crate::text::has_prefix(s, p) <==> exists|b: Seq<char>| s == #[trigger] (p + b),
        crate::text::has_suffix(s, p) <==> exists|a: Seq<char>| s == #[trigger] (a + p),
        crate::text::has_infix(s, p) <==> exists|a: Seq<char>, b: Seq<char>| s == #[trigger] (a + p + b),
{
    assert(crate::text::has_prefix(s, p) <==> exists|b: Seq<char>| s == #[trigger] (p + b)) by {
        if crate::text::has_prefix(s, p) {
            let b = s.skip(p.len() as int);
            assert(s =~= p + b);
        }
        if exists|b: Seq<char>| s == #[trigger] (p + b) {
            let b = choose|b: Seq<char>| s == #[trigger] (p + b);
            lemma_part_at_the_beginning(p, b);
        }
    }
    assert(crate::text::has_suffix(s, p) <==> exists|a: Seq<char>| s == #[trigger] (a + p)) by {
        if crate::text::has_suffix(s, p) {
            let a = s.take(s.len() - p.len());
            assert(s =~= a + p);
        }
        if exists|a: Seq<char>| s == #[trigger] (a + p) {
            let a = choose|a: Seq<char>| s == #[trigger] (a + p);
            lemma_part_at_the_end(a, p);
        }
    }
    assert(crate::text::has_infix(s, p) <==> exists|a: Seq<char>, b: Seq<char>| s == #[trigger] (a + p + b)) by {
        if crate::text::has_infix(s, p) {
            let i = choose|i: int| crate::text::occurs_at(s, p, i);
            let (a, b) = (s.take(i), s.skip(i + p.len()));
            assert(s =~= a + p + b);
        }
        if exists|a: Seq<char>, b: Seq<char>| s == #[trigger] (a + p + b) {
            let (a, b) = choose|a: Seq<char>, b: Seq<char>| s == #[trigger] (a + p + b);
            lemma_part_somewhere(a, p, b);
        }
    }
}

// ---------------------------------------------------------------------------
// Splitting
// ---------------------------------------------------------------------------

proof fn lemma_split_both(a: Seq<char>, c: char, b: Seq<char>, sep: spec_fn(char) -> bool)
    requires
        sep(c),
    ensures
        crate::text::split(a.push(c) + b, sep) == crate::text::split(a, sep) + crate::text::split(b, sep),
    decreases b.len(),
{
    let s = a.push(c) + b;
    crate::text::lemma_split_is_not_empty(b, sep);
    if b.len() == 0 {
        assert(s =~= a.push(c));
        assert(s.drop_last() =~= a);
        assert(crate::text::split(s, sep) =~= crate::text::split(a, sep) + crate::text::split(b, sep));
    } else {
        let rest = b.drop_last();
        lemma_split_both(a, c, rest, sep);
        crate::text::lemma_split_is_not_empty(rest, sep);
        assert(s.drop_last() =~= a.push(c) + rest);
        assert(s.last() == b.last());
        assert(crate::text::split(s, sep) =~= crate::text::split(a, sep) + crate::text::split(b, sep));
    }
}

proof fn lemma_split_none(s: Seq<char>, sep: spec_fn(char) -> bool)
    requires
        forall|i: int| 0 <= i < s.len() ==> !sep(#[trigger] s[i]),
    ensures
        crate::text::split(s, sep) == seq![s],
    decreases s.len(),
{
    if s.len() > 0 {
        let rest = s.drop_last();
        assert forall|i: int| 0 <= i < rest.len() implies !sep(#[trigger] rest[i]) by {
            assert(rest[i] == s[i]);
        }
        lemma_split_none(rest, sep);
        assert(!sep(s[s.len() - 1]));
        assert(rest.push(s.last()) =~= s);
        assert(crate::text::split(s, sep) =~= seq![s]);
    } else {
        assert(s =~= Seq::empty());
    }
}

/// A text is split exactly where its separators stand: what has none is a single piece,
/// and at a separator the pieces before it end and those behind it begin.
pub proof fn lemma_split_at_separators(a: Seq<char>, c: char, b: Seq<char>, seps: Seq<char>)
    requires
        seps.contains(c),
    ensures
        crate::text::split_any(a.push(c) + b, seps) == crate::text::split_any(a, seps) + crate::text::split_any(
            b,
            seps,
        ),
        (forall|i: int| 0 <= i < a.len() ==> !seps.contains(#[trigger] a[i])) ==> crate::text::split_any(a, seps)
            == seq![a],
{
    let sep = |d: char| seps.contains(d);
    lemma_split_both(a, c, b, sep);
    if forall|i: int| 0 <= i < a.len() ==> !seps.contains(#[trigger] a[i]) {
        lemma_split_none(a, sep);
    }
}

proof fn lemma_filtered(a: Seq<Seq<char>>, b: Seq<Seq<char>>)
    ensures
        (a + b).filter(|w: Seq<char>| w.len() > 0) == a.filter(|w: Seq<char>| w.len() > 0) + b.filter(
            |w: Seq<char>| w.len() > 0,
        ),
{
    Seq::filter_distributes_over_add(a, b, |w: Seq<char>| w.len() > 0);
}

/// The words of a text are what stands between its white space: white space parts words,
/// and a text without any is one word, unless it is empty.
pub proof fn lemma_words_between_white_space(a: Seq<char>, c: char, b: Seq<char>)
    requires
        crate::text::is_white_space(c),
    ensures
        crate::text::words(a.push(c) + b) == crate::text::words(a) + crate::text::words(b),
        (forall|i: int| 0 <= i < a.len() ==> !crate::text::is_white_space(#[trigger] a[i])) ==> crate::text::words(a)
            == if a.len() > 0 {
            seq![a]
        } else {
            Seq::empty()
        },
{
    let sep = |d: char| crate::text::is_white_space(d);
    lemma_split_both(a, c, b, sep);
    lemma_filtered(crate::text::split(a, sep), crate::text::split(b, sep));
    if forall|i: int| 0 <= i < a.len() ==> !crate::text::is_white_space(#[trigger] a[i]) {
        lemma_split_none(a, sep);
        let none = Seq::<Seq<char>>::empty();
        reveal(Seq::filter);
        assert(seq![a].drop_last() =~= none);
        assert(none.filter(|w: Seq<char>| w.len() > 0) =~= none);
        assert(crate::text::words(a) =~= if a.len() > 0 {
            seq![a]
        } else {
            none
        });
    }
}

/// The first word of a text is what stands before its first white space; white space
/// before it does not count.
pub proof fn lemma_first_word(lead: Seq<char>, w: Seq<char>, c: char, rest: Seq<char>)
    requires
        is_blank(lead),
        w.len() > 0,
        forall|i: int| 0 <= i < w.len() ==> !crate::text::is_white_space(#[trigger] w[i]),
        crate::text::is_white_space(c),
    ensures
        crate::text::first_word(lead + w.push(c) + rest) == w,
        crate::text::first_word(lead + w) == w,
    decreases lead.len(),
{
    let none = Seq::<char>::empty();
    if lead.len() == 0 {
        lemma_words_between_white_space(w, c, rest);
        assert(lead + w.push(c) + rest =~= w.push(c) + rest);
        assert(lead + w =~= w);
    } else {
        let more = lead.drop_first();
        assert(crate::text::is_white_space(lead[0]));
        assert forall|i: int| 0 <= i < more.len() implies crate::text::is_white_space(#[trigger] more[i]) by {
            assert(more[i] == lead[i + 1]);
        }
        lemma_first_word(more, w, c, rest);
        lemma_words_between_white_space(none, lead[0], more + w.push(c) + rest);
        lemma_words_between_white_space(none, lead[0], more + w);
        assert(none.push(lead[0]) + (more + w.push(c) + rest) =~= lead + w.push(c) + rest);
        assert(none.push(lead[0]) + (more + w) =~= lead + w);
        assert(crate::text::words(none) + crate::text::words(more + w) =~= crate::text::words(more + w));
        assert(crate::text::words(none) + crate::text::words(more + w.push(c) + rest) =~= crate::text::words(
            more + w.push(c) + rest,
        ));
    }
}

/// The lines of a text are what stands between its line feeds, without the carriage
/// return before a line feed; a last line need not be ended, and there is none behind
/// the last line feed.
pub proof fn lemma_lines_between_line_feeds(line: Seq<char>, rest: Seq<char>)
    requires
        !line.contains('\n'),
    ensures
        crate::text::lines(line + "\n"@ + rest) == seq![
            if line.len() > 0 && line.last() == '\r' {
                line.drop_last()
            } else {
                line
            },
        ] + crate::text::lines(rest),
        crate::text::lines(line) == if line.len() > 0 {
            seq![line]
        } else {
            Seq::empty()
        },
{
    reveal_strlit("\n");
    let seps = seq!['\n'];
    assert(seps[0] == '\n');
    assert(seps.contains('\n'));
    assert forall|i: int| 0 <= i < line.len() implies !seps.contains(#[trigger] line[i]) by {
        assert(line.contains(line[i]));
    }
    lemma_split_at_separators(line, '\n', rest, seps);
    assert(line + "\n"@ + rest =~= line.push('\n') + rest);
    crate::text::lemma_split_is_not_empty(rest, |d: char| seps.contains(d));
    let parts = crate::text::split_any(rest, seps);
    let all = crate::text::split_any(line + "\n"@ + rest, seps);
    assert(all == seq![line] + parts);
    assert(all.drop_last() =~= seq![line] + parts.drop_last());
    let ended = |l: Seq<char>| crate::text::without_return(l);
    assert(all.drop_last().map_values(ended) =~= seq![crate::text::without_return(line)]
        + parts.drop_last().map_values(ended));
    assert(crate::text::lines(line + "\n"@ + rest) =~= seq![crate::text::without_return(line)] + crate::text::lines(
        rest,
    ));
    assert(seq![line].drop_last().map_values(ended) =~= Seq::empty());
    assert(crate::text::lines(line) =~= if line.len() > 0 {
        seq![line]
    } else {
        Seq::empty()
    });
}

/// Texts are joined by the text between them: a single one stays as it is, and at each
/// seam stands the separator once.
pub proof fn lemma_join_at_the_seam(a: Seq<Seq<char>>, b: Seq<Seq<char>>, sep: Seq<char>)
    requires
        a.len() > 0,
        b.len() > 0,
    ensures
        crate::text::join(a + b, sep) == crate::text::join(a, sep) + sep + crate::text::join(b, sep),
        a.len() == 1 ==> crate::text::join(a, sep) == a[0],
    decreases b.len(),
{
    let all = a + b;
    assert(all.last() == b.last());
    assert(all.drop_last() =~= a + b.drop_last());
    if b.len() == 1 {
        assert(all.drop_last() =~= a);
    } else {
        lemma_join_at_the_seam(a, b.drop_last(), sep);
        assert(crate::text::join(all, sep) =~= crate::text::join(a, sep) + sep + crate::text::join(b, sep));
    }
}

// ---------------------------------------------------------------------------
// Replacing
// ---------------------------------------------------------------------------

/// What is replaced is each occurrence and nothing else: a text up to which no occurrence
/// can begin stays as it is, and an occurrence gives way.
pub proof fn lemma_replaced(a: Seq<char>, b: Seq<char>, from: Seq<char>, to: Seq<char>)
    requires
        from.len() > 0,
        !a.contains(from[0]),
    ensures
        crate::text::replaced(a + b, from, to) == a + crate::text::replaced(b, from, to),
        crate::text::replaced(from + b, from, to) == to + crate::text::replaced(b, from, to),
        crate::text::replaced(a, from, to) == a,
    decreases a.len(),
{
    assert((from + b).subrange(0, from.len() as int) =~= from);
    assert((from + b).skip(from.len() as int) =~= b);
    if a.len() == 0 {
        assert(a + b =~= b);
        assert(a + crate::text::replaced(b, from, to) =~= crate::text::replaced(b, from, to));
    } else {
        let rest = a.drop_first();
        assert(a.contains(a[0]));
        assert forall|i: int| 0 <= i < rest.len() implies #[trigger] rest[i] != from[0] by {
            assert(a.contains(a[i + 1]));
        }
        lemma_replaced(rest, b, from, to);
        let s = a + b;
        if crate::text::has_prefix(s, from) {
            assert(s.subrange(0, from.len() as int)[0] == a[0]);
        }
        if crate::text::has_prefix(a, from) {
            assert(a.subrange(0, from.len() as int)[0] == a[0]);
        }
        assert(s.drop_first() =~= rest + b);
        assert(seq![a[0]] + (rest + crate::text::replaced(b, from, to)) =~= a + crate::text::replaced(b, from, to));
        assert(seq![a[0]] + rest =~= a);
    }
}

/// A text in which nothing is to be replaced stays as it is.
pub proof fn lemma_nothing_replaced(s: Seq<char>, from: Seq<char>, to: Seq<char>)
    requires
        !crate::text::has_infix(s, from),
    ensures
        crate::text::replaced(s, from, to) == s,
    decreases s.len(),
{
    if s.len() > 0 && from.len() > 0 {
        if crate::text::has_prefix(s, from) {
            assert(crate::text::occurs_at(s, from, 0));
        }
        let rest = s.drop_first();
        if crate::text::has_infix(rest, from) {
            let i = choose|i: int| crate::text::occurs_at(rest, from, i);
            assert(rest.subrange(i, i + from.len()) =~= s.subrange(i + 1, i + 1 + from.len()));
            assert(crate::text::occurs_at(s, from, i + 1));
        }
        lemma_nothing_replaced(rest, from, to);
        assert(seq![s[0]] + rest =~= s);
    }
}

/// The first occurrence gives way: what stands before it stays as it is, and the rest is
/// gone on with behind it.
pub proof fn lemma_first_replaced(a: Seq<char>, b: Seq<char>, from: Seq<char>, to: Seq<char>)
    requires
        from.len() > 0,
        forall|i: int| 0 <= i < a.len() ==> !#[trigger] crate::text::occurs_at(a + from + b, from, i),
    ensures
        crate::text::replaced(a + from + b, from, to) == a + to + crate::text::replaced(b, from, to),
    decreases a.len(),
{
    let s = a + from + b;
    if a.len() == 0 {
        lemma_replaced(a, b, from, to);
        assert(s =~= from + b);
        assert(a + to =~= to);
    } else {
        let rest = a.drop_first();
        let behind = rest + from + b;
        assert(s.drop_first() =~= behind);
        assert(!crate::text::occurs_at(s, from, 0));
        assert forall|i: int| 0 <= i < rest.len() implies !#[trigger] crate::text::occurs_at(behind, from, i) by {
            assert(!crate::text::occurs_at(s, from, i + 1));
            assert(s.subrange(i + 1, i + 1 + from.len()) =~= behind.subrange(i, i + from.len()));
        }
        lemma_first_replaced(rest, b, from, to);
        assert(seq![a[0]] + (rest + to + crate::text::replaced(b, from, to)) =~= a + to + crate::text::replaced(
            b,
            from,
            to,
        ));
    }
}

// ---------------------------------------------------------------------------
// Letters and digits
// ---------------------------------------------------------------------------

/// Making the letters A to Z small changes no other character.
pub proof fn lemma_lowercase(s: Seq<char>, i: int)
    requires
        0 <= i < s.len(),
    ensures
        ({
            let r = crate::text::ascii_lowercase(s);
            &&& r.len() == s.len()
            &&& 'A' <= s[i] <= 'Z' ==> 'a' <= r[i] <= 'z' && r[i] as int - 'a' as int == s[i] as int - 'A' as int
            &&& !('A' <= s[i] <= 'Z') ==> r[i] == s[i]
            &&& s[i] < '\u{80}' ==> r[i] < '\u{80}'
        }),
        (forall|k: int| 0 <= k < s.len() ==> (#[trigger] s[k]) < '\u{80}') ==> crate::text::lower(s)
            == crate::text::ascii_lowercase(s),
{
}

/// The number that a text of digits stands for.
pub open spec fn value(digits: Seq<char>) -> int
    decreases digits.len(),
{
    if digits.len() == 0 {
        0
    } else {
        10 * value(digits.drop_last()) + (digits.last() as int - '0' as int)
    }
}

/// A number is written with digits alone, without a needless zero in front, and they
/// stand for it.
pub proof fn lemma_decimal(n: nat)
    ensures
        value(crate::text::decimal(n)) == n,
        crate::text::decimal(n).len() > 0,
        forall|i: int|
            0 <= i < crate::text::decimal(n).len() ==> '0' <= (#[trigger] crate::text::decimal(n)[i]) <= '9',
        n > 0 ==> crate::text::decimal(n)[0] != '0',
    decreases n,
{
    let r = crate::text::decimal(n);
    if n < 10 {
        let none = Seq::<char>::empty();
        assert(r.drop_last() =~= none);
        assert(value(none) == 0);
        assert(r.last() as int == 48 + n);
    } else {
        lemma_decimal(n / 10);
        assert(r.drop_last() =~= crate::text::decimal(n / 10));
        assert(r.last() as int == 48 + n % 10);
        assert forall|i: int| 0 <= i < r.len() implies '0' <= (#[trigger] r[i]) <= '9' by {
            if i < r.len() - 1 {
                assert(r[i] == crate::text::decimal(n / 10)[i]);
            }
        }
        assert(r[0] == crate::text::decimal(n / 10)[0]);
    }
}

/// A time is its number of seconds with the unit behind it; no time is no nanoseconds.
pub proof fn lemma_seconds(n: nat)
    ensures
        n > 0 ==> {
            let r = crate::text::seconds(n);
            r.len() > 0 && r.last() == 's' && value(r.drop_last()) == n
        },
        n == 0 ==> crate::text::seconds(n) == "0ns"@,
{
    reveal_strlit("s");
    lemma_decimal(n);
    if n > 0 {
        assert(crate::text::seconds(n).drop_last() =~= crate::text::decimal(n));
    }
}

} // verus!
