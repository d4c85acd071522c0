//! Text as a sequence of characters: the searching, splitting and trimming that
//! the rest of the crate is written with.

use vstd::prelude::*;
use vstd::string::StringExecFns;

verus! {

/// The characters with the Unicode property `White_Space`.
pub open spec fn is_white_space(c: char) -> bool {
    ||| '\u{9}' <= c <= '\u{d}'
    ||| c == ' '
    ||| c == '\u{85}'
    ||| c == '\u{a0}'
    ||| c == '\u{1680}'
    ||| '\u{2000}' <= c <= '\u{200a}'
    ||| c == '\u{2028}'
    ||| c == '\u{2029}'
    ||| c == '\u{202f}'
    ||| c == '\u{205f}'
    ||| c == '\u{3000}'
}

/// Whether `c` is a white space character.
pub fn white_space(c: char) -> (r: bool)
    ensures
        r == is_white_space(c),
{
    ('\u{9}' <= c && c <= '\u{d}') || c == ' ' || c == '\u{85}' || c == '\u{a0}' || c == '\u{1680}'
        || ('\u{2000}' <= c && c <= '\u{200a}') || c == '\u{2028}' || c == '\u{2029}'
        || c == '\u{202f}' || c == '\u{205f}' || c == '\u{3000}'
}

/// `String::push` of the standard library: the character is appended.
pub assume_specification[ String::push ](s: &mut String, c: char)
    ensures
        final(s)@ == old(s)@.push(c),
;

/// The characters of `s`.
pub fn chars_of(s: &str) -> (r: Vec<char>)
    ensures
        r@ == s@,
{
    let mut r: Vec<char> = Vec::new();
    for c in it: s.chars()
        invariant
            it.seq() == s@,
            r@ == s@.take(it.index() as int),
    {
        r.push(c);
        assert(r@ =~= s@.take(it.index() + 1));
    }
    assert(s@.take(s@.len() as int) =~= s@);
    r
}

/// The text that `s` spells.
pub fn string_of(s: &Vec<char>) -> (r: String)
    ensures
        r@ == s@,
{
    let mut r = String::new();
    let mut i: usize = 0;
    while i < s.len()
        invariant
            i <= s.len(),
            r@ == s@.take(i as int),
        decreases s.len() - i,
    {
        r.push(s[i]);
        assert(s@.take(i as int).push(s@[i as int]) =~= s@.take(i + 1));
        i = i + 1;
    }
    assert(s@.take(s@.len() as int) =~= s@);
    r
}

// ---------------------------------------------------------------------------
// Searching
// ---------------------------------------------------------------------------

/// Whether `p` occurs in `s` at position `i`.
pub open spec fn occurs_at(s: Seq<char>, p: Seq<char>, i: int) -> bool {
    0 <= i && i + p.len() <= s.len() && s.subrange(i, i + p.len()) == p
}

/// Whether `s` begins with `p`.
pub open spec fn has_prefix(s: Seq<char>, p: Seq<char>) -> bool {
    occurs_at(s, p, 0)
}

/// Whether `s` ends with `p`.
pub open spec fn has_suffix(s: Seq<char>, p: Seq<char>) -> bool {
    occurs_at(s, p, s.len() - p.len())
}

/// Whether `p` occurs somewhere in `s`.
pub open spec fn has_infix(s: Seq<char>, p: Seq<char>) -> bool {
    exists|i: int| occurs_at(s, p, i)
}

/// Whether `s` begins with the character `c`.
pub open spec fn begins_with(s: Seq<char>, c: char) -> bool {
    s.len() > 0 && s[0] == c
}

/// Whether `s` is one of the texts in `list`.
pub open spec fn one_of(s: Seq<char>, list: Seq<Seq<char>>) -> bool {
    exists|k: int| 0 <= k < list.len() && s == #[trigger] list[k]
}

/// Whether one of the texts in `list` occurs somewhere in `s`.
pub open spec fn has_infix_of(s: Seq<char>, list: Seq<Seq<char>>) -> bool {
    exists|k: int| 0 <= k < list.len() && has_infix(s, #[trigger] list[k])
}

/// Whether `s` begins with one of the texts in `list`.
pub open spec fn has_prefix_of(s: Seq<char>, list: Seq<Seq<char>>) -> bool {
    exists|k: int| 0 <= k < list.len() && has_prefix(s, #[trigger] list[k])
}

/// Whether `p` occurs in `s` at position `at`.
pub fn match_at(s: &Vec<char>, p: &Vec<char>, at: usize) -> (r: bool)
    ensures
        r == occurs_at(s@, p@, at as int),
{
    if s.len() < p.len() || at > s.len() - p.len() {
        return false;
    }
    let mut j: usize = 0;
    while j < p.len()
        invariant
            j <= p.len(),
            at + p.len() <= s.len(),
            forall|k: int| 0 <= k < j ==> s@[at + k] == p@[k],
        decreases p.len() - j,
    {
        if s[at + j] != p[j] {
            assert(s@.subrange(at as int, at + p@.len())[j as int] != p@[j as int]);
            return false;
        }
        j = j + 1;
    }
    assert(s@.subrange(at as int, at + p@.len()) =~= p@);
    true
}

/// Whether `s` begins with `p`.
pub fn starts_with(s: &Vec<char>, p: &str) -> (r: bool)
    ensures
        r == has_prefix(s@, p@),
{
    let p = chars_of(p);
    match_at(s, &p, 0)
}

/// Whether `s` ends with `p`.
pub fn ends_with(s: &Vec<char>, p: &str) -> (r: bool)
    ensures
        r == has_suffix(s@, p@),
{
    let p = chars_of(p);
    if s.len() < p.len() {
        return false;
    }
    match_at(s, &p, s.len() - p.len())
}

/// The position of the first occurrence of `p` in `s`.
pub fn find(s: &Vec<char>, p: &str) -> (r: Option<usize>)
    ensures
        match r {
            Some(i) => occurs_at(s@, p@, i as int) && forall|j: int| j < i ==> !#[trigger] occurs_at(s@, p@, j),
            None => !has_infix(s@, p@),
        },
{
    let pattern = chars_of(p);
    let mut i: usize = 0;
    while i < s.len()
        invariant
            i <= s.len(),
            pattern@ == p@,
            forall|j: int| j < i ==> !#[trigger] occurs_at(s@, p@, j),
        decreases s.len() - i,
    {
        if match_at(s, &pattern, i) {
            return Some(i);
        }
        i = i + 1;
    }
    if match_at(s, &pattern, i) {
        return Some(i);
    }
    assert forall|j: int| !occurs_at(s@, p@, j) by {}
    None
}

/// Whether `p` occurs somewhere in `s`.
pub fn contains(s: &Vec<char>, p: &str) -> (r: bool)
    ensures
        r == has_infix(s@, p@),
{
    find(s, p).is_some()
}

/// Whether the character `c` occurs in `s`.
pub fn contains_char(s: &Vec<char>, c: char) -> (r: bool)
    ensures
        r == s@.contains(c),
{
    let mut i: usize = 0;
    while i < s.len()
        invariant
            i <= s.len(),
            forall|j: int| 0 <= j < i ==> s@[j] != c,
        decreases s.len() - i,
    {
        if s[i] == c {
            return true;
        }
        i = i + 1;
    }
    false
}

/// Whether `s` begins with the character `c`.
pub fn starts_with_char(s: &Vec<char>, c: char) -> (r: bool)
    ensures
        r == begins_with(s@, c),
{
    s.len() > 0 && s[0] == c
}

/// Whether `s` spells `p`.
pub fn equals(s: &Vec<char>, p: &str) -> (r: bool)
    ensures
        r == (s@ == p@),
{
    let p = chars_of(p);
    if s.len() != p.len() {
        return false;
    }
    let r = match_at(s, &p, 0);
    assert(s@.subrange(0, p@.len() as int) =~= s@);
    r
}

/// Whether two texts are the same.
pub fn same_text(a: &str, b: &str) -> (r: bool)
    ensures
        r == (a@ == b@),
{
    let a = chars_of(a);
    equals(&a, b)
}

/// The views of a list of texts.
pub open spec fn texts(list: Seq<&str>) -> Seq<Seq<char>> {
    list.map_values(|s: &str| s@)
}

/// Whether `s` spells one of the texts in `list`.
pub fn equals_one_of(s: &Vec<char>, list: &Vec<&str>) -> (r: bool)
    ensures
        r == one_of(s@, texts(list@)),
{
    let mut k: usize = 0;
    while k < list.len()
        invariant
            k <= list.len(),
            forall|j: int| 0 <= j < k ==> s@ != #[trigger] texts(list@)[j],
        decreases list.len() - k,
    {
        if equals(s, list[k]) {
            assert(texts(list@)[k as int] == s@);
            return true;
        }
        k = k + 1;
    }
    false
}

/// Whether one of the texts in `list` occurs somewhere in `s`.
pub fn contains_one_of(s: &Vec<char>, list: &Vec<&str>) -> (r: bool)
    ensures
        r == has_infix_of(s@, texts(list@)),
{
    let mut k: usize = 0;
    while k < list.len()
        invariant
            k <= list.len(),
            forall|j: int| 0 <= j < k ==> !has_infix(s@, #[trigger] texts(list@)[j]),
        decreases list.len() - k,
    {
        if contains(s, list[k]) {
            assert(has_infix(s@, texts(list@)[k as int]));
            return true;
        }
        k = k + 1;
    }
    false
}

/// Whether `s` begins with one of the texts in `list`.
pub fn starts_with_one_of(s: &Vec<char>, list: &Vec<&str>) -> (r: bool)
    ensures
        r == has_prefix_of(s@, texts(list@)),
{
    let mut k: usize = 0;
    while k < list.len()
        invariant
            k <= list.len(),
            forall|j: int| 0 <= j < k ==> !has_prefix(s@, #[trigger] texts(list@)[j]),
        decreases list.len() - k,
    {
        if starts_with(s, list[k]) {
            assert(has_prefix(s@, texts(list@)[k as int]));
            return true;
        }
        k = k + 1;
    }
    false
}

// ---------------------------------------------------------------------------
// Trimming
// ---------------------------------------------------------------------------

/// `s` without its leading white space.
pub open spec fn trim_start(s: Seq<char>) -> Seq<char>
    decreases s.len(),
{
    if s.len() > 0 && is_white_space(s[0]) {
        trim_start(s.drop_first())
    } else {
        s
    }
}

/// `s` without its trailing white space.
pub open spec fn trim_end(s: Seq<char>) -> Seq<char>
    decreases s.len(),
{
    if s.len() > 0 && is_white_space(s.last()) {
        trim_end(s.drop_last())
    } else {
        s
    }
}

/// `s` without its leading and trailing white space.
pub open spec fn trim(s: Seq<char>) -> Seq<char> {
    trim_end(trim_start(s))
}

proof fn lemma_trim_start(s: Seq<char>)
    ensures
        trim_start(s).len() <= s.len(),
        trim_start(s) == s.skip(s.len() - trim_start(s).len()),
        trim_start(s).len() > 0 ==> !is_white_space(trim_start(s)[0]),
    decreases s.len(),
{
    if s.len() > 0 && is_white_space(s[0]) {
        let rest = s.drop_first();
        lemma_trim_start(rest);
        assert(rest.skip(rest.len() - trim_start(rest).len()) =~= s.skip(s.len() - trim_start(rest).len()));
    } else {
        assert(s.skip(0) =~= s);
    }
}

pub(crate) proof fn lemma_trim_end(s: Seq<char>)
    ensures
        trim_end(s).len() <= s.len(),
        trim_end(s) == s.take(trim_end(s).len() as int),
        forall|i: int| trim_end(s).len() <= i < s.len() ==> is_white_space(#[trigger] s[i]),
        trim_end(s).len() > 0 ==> !is_white_space(trim_end(s).last()),
    decreases s.len(),
{
    if s.len() > 0 && is_white_space(s.last()) {
        let rest = s.drop_last();
        lemma_trim_end(rest);
        assert(rest.take(trim_end(rest).len() as int) =~= s.take(trim_end(rest).len() as int));
        assert forall|i: int| trim_end(rest).len() <= i < s.len() implies is_white_space(#[trigger] s[i]) by {
            if i < rest.len() {
                assert(rest[i] == s[i]);
            }
        }
    } else {
        assert(s.take(s.len() as int) =~= s);
    }
}

/// What is trimmed has no white space around it, and holds nothing that the text
/// did not hold.
pub proof fn lemma_trimmed(s: Seq<char>)
    ensures
        trim(trim(s)) == trim(s),
        forall|c: char| #[trigger] trim(s).contains(c) ==> s.contains(c),
{
    let inner = trim_start(s);
    let t = trim(s);
    lemma_trim_start(s);
    lemma_trim_end(inner);
    if t.len() > 0 {
        assert(t[0] == inner[0]);
    }
    assert forall|c: char| #[trigger] t.contains(c) implies s.contains(c) by {
        let i = choose|i: int| 0 <= i < t.len() && t[i] == c;
        assert(inner[i] == c);
        assert(s[i + s.len() - inner.len()] == c);
    }
}

/// The part of `s` from `from` to `to`.
pub fn slice(s: &Vec<char>, from: usize, to: usize) -> (r: Vec<char>)
    requires
        from <= to <= s.len(),
    ensures
        r@ == s@.subrange(from as int, to as int),
{
    let mut r: Vec<char> = Vec::new();
    let mut i: usize = from;
    while i < to
        invariant
            from <= i <= to <= s.len(),
            r@ == s@.subrange(from as int, i as int),
        decreases to - i,
    {
        r.push(s[i]);
        assert(s@.subrange(from as int, i as int).push(s@[i as int]) =~= s@.subrange(from as int, i + 1));
        i = i + 1;
    }
    r
}

/// `s` without its leading and trailing white space.
pub fn trimmed(s: &Vec<char>) -> (r: Vec<char>)
    ensures
        r@ == trim(s@),
{
    let mut from: usize = 0;
    assert(s@.skip(0) =~= s@);
    while from < s.len() && white_space(s[from])
        invariant
            from <= s.len(),
            trim_start(s@) == trim_start(s@.skip(from as int)),
        decreases s.len() - from,
    {
        assert(s@.skip(from as int).drop_first() =~= s@.skip(from + 1));
        from = from + 1;
    }
    assert(trim_start(s@) =~= s@.skip(from as int));
    let mut to: usize = s.len();
    assert(s@.subrange(from as int, to as int) =~= s@.skip(from as int));
    while to > from && white_space(s[to - 1])
        invariant
            from <= to <= s.len(),
            trim_end(s@.skip(from as int)) == trim_end(s@.subrange(from as int, to as int)),
        decreases to,
    {
        assert(s@.subrange(from as int, to as int).drop_last() =~= s@.subrange(from as int, to - 1));
        to = to - 1;
    }
    slice(s, from, to)
}

/// `s` without its leading and trailing white space.
pub fn trimmed_str(s: &str) -> (r: Vec<char>)
    ensures
        r@ == trim(s@),
{
    let s = chars_of(s);
    trimmed(&s)
}

// ---------------------------------------------------------------------------
// Replacing
// ---------------------------------------------------------------------------

/// `s` with each occurrence of `from`, taken from the left and without overlap,
/// replaced by `to`.
pub open spec fn replaced(s: Seq<char>, from: Seq<char>, to: Seq<char>) -> Seq<char>
    decreases s.len(),
{
    if s.len() == 0 || from.len() == 0 {
        s
    } else if has_prefix(s, from) {
        to + replaced(s.skip(from.len() as int), from, to)
    } else {
        seq![s[0]] + replaced(s.drop_first(), from, to)
    }
}

/// `s` with each occurrence of `from` replaced by `to`.
pub fn replace(s: &Vec<char>, from: &str, to: &str) -> (r: Vec<char>)
    requires
        from@.len() > 0,
    ensures
        r@ == replaced(s@, from@, to@),
{
    let from = chars_of(from);
    let to = chars_of(to);
    let mut r: Vec<char> = Vec::new();
    let mut i: usize = 0;
    assert(s@.skip(0) =~= s@);
    while i < s.len()
        invariant
            i <= s.len(),
            from@.len() > 0,
            replaced(s@, from@, to@) == r@ + replaced(s@.skip(i as int), from@, to@),
        decreases s.len() - i,
    {
        let ghost rest = s@.skip(i as int);
        let ghost before = r@;
        if match_at(s, &from, i) {
            proof {
                assert(rest.subrange(0, from@.len() as int) =~= s@.subrange(i as int, i + from@.len()));
                assert(rest.skip(from@.len() as int) =~= s@.skip(i + from@.len()));
            }
            let mut j: usize = 0;
            while j < to.len()
                invariant
                    j <= to.len(),
                    r@ == before + to@.take(j as int),
                decreases to.len() - j,
            {
                r.push(to[j]);
                assert(before + to@.take(j as int).push(to@[j as int]) =~= before + to@.take(j + 1));
                assert((before + to@.take(j as int)).push(to@[j as int]) =~= before + to@.take(j + 1));
                j = j + 1;
            }
            assert(to@.take(to@.len() as int) =~= to@);
            i = i + from.len();
            assert(before + (to@ + replaced(s@.skip(i as int), from@, to@)) =~= (before + to@) + replaced(
                s@.skip(i as int),
                from@,
                to@,
            ));
        } else {
            proof {
                if has_prefix(rest, from@) {
                    assert(rest.subrange(0, from@.len() as int) =~= s@.subrange(i as int, i + from@.len()));
                }
                assert(rest.drop_first() =~= s@.skip(i + 1));
            }
            r.push(s[i]);
            i = i + 1;
            assert(before + (seq![rest[0]] + replaced(s@.skip(i as int), from@, to@)) =~= before.push(rest[0])
                + replaced(s@.skip(i as int), from@, to@));
        }
    }
    assert(s@.skip(i as int).len() == 0);
    assert(r@ + replaced(s@.skip(i as int), from@, to@) =~= r@);
    r
}

// ---------------------------------------------------------------------------
// Splitting
// ---------------------------------------------------------------------------

/// The pieces of `s` between the characters for which `sep` holds. There is one
/// more piece than there are such characters, and a piece may be empty.
pub open spec fn split(s: Seq<char>, sep: spec_fn(char) -> bool) -> Seq<Seq<char>>
    decreases s.len(),
{
    if s.len() == 0 {
        seq![Seq::<char>::empty()]
    } else {
        let before = split(s.drop_last(), sep);
        if sep(s.last()) {
            before.push(Seq::<char>::empty())
        } else {
            before.drop_last().push(before.last().push(s.last()))
        }
    }
}

/// The pieces of `s` between the characters in `seps`.
pub open spec fn split_any(s: Seq<char>, seps: Seq<char>) -> Seq<Seq<char>> {
    split(s, |c: char| seps.contains(c))
}

/// The words of `s`: its longest pieces without white space.
pub open spec fn words(s: Seq<char>) -> Seq<Seq<char>> {
    split(s, |c: char| is_white_space(c)).filter(|w: Seq<char>| w.len() > 0)
}

/// The first word of `s`, or the empty text.
pub open spec fn first_word(s: Seq<char>) -> Seq<char> {
    if words(s).len() > 0 {
        words(s)[0]
    } else {
        Seq::empty()
    }
}

/// What a list of pieces spells.
pub open spec fn pieces(list: Seq<Vec<char>>) -> Seq<Seq<char>> {
    list.map_values(|p: Vec<char>| p@)
}

/// The pieces of `s` between the characters in `seps`.
pub fn split_at_any(s: &Vec<char>, seps: &Vec<char>) -> (r: Vec<Vec<char>>)
    ensures
        pieces(r@) == split_any(s@, seps@),
{
    let ghost sep = |c: char| seps@.contains(c);
    let mut done: Vec<Vec<char>> = Vec::new();
    let mut cur: Vec<char> = Vec::new();
    let mut i: usize = 0;
    assert(pieces(done@).push(cur@) =~= split(s@.take(0), sep));
    while i < s.len()
        invariant
            i <= s.len(),
            sep == (|c: char| seps@.contains(c)),
            pieces(done@).push(cur@) == split(s@.take(i as int), sep),
        decreases s.len() - i,
    {
        let ghost before = split(s@.take(i as int), sep);
        assert(s@.take(i + 1).drop_last() =~= s@.take(i as int));
        assert(before.drop_last() =~= pieces(done@));
        if contains_char(seps, s[i]) {
            done.push(cur);
            assert(pieces(done@) =~= before);
            cur = Vec::new();
        } else {
            cur.push(s[i]);
        }
        i = i + 1;
    }
    assert(s@.take(s@.len() as int) =~= s@);
    let ghost old_done = done@;
    done.push(cur);
    assert(pieces(done@) =~= pieces(old_done).push(cur@));
    done
}

proof fn lemma_filter_push(s: Seq<Seq<char>>, w: Seq<char>)
    ensures
        s.push(w).filter(|w: Seq<char>| w.len() > 0) == if w.len() > 0 {
            s.filter(|w: Seq<char>| w.len() > 0).push(w)
        } else {
            s.filter(|w: Seq<char>| w.len() > 0)
        },
{
    reveal(Seq::filter);
    assert(s.push(w).drop_last() =~= s);
}

/// The words of `s`.
pub fn split_whitespace(s: &Vec<char>) -> (r: Vec<Vec<char>>)
    ensures
        pieces(r@) == words(s@),
{
    let ghost sep = |c: char| is_white_space(c);
    let ghost full = |w: Seq<char>| w.len() > 0;
    let mut found: Vec<Vec<char>> = Vec::new();
    let mut cur: Vec<char> = Vec::new();
    let mut i: usize = 0;
    proof {
        reveal(Seq::filter);
        assert(split(s@.take(0), sep).drop_last() =~= Seq::<Seq<char>>::empty());
        assert(pieces(found@) =~= split(s@.take(0), sep).drop_last().filter(full));
    }
    while i < s.len()
        invariant
            i <= s.len(),
            sep == (|c: char| is_white_space(c)),
            full == (|w: Seq<char>| w.len() > 0),
            split(s@.take(i as int), sep).len() > 0,
            cur@ == split(s@.take(i as int), sep).last(),
            pieces(found@) == split(s@.take(i as int), sep).drop_last().filter(full),
        decreases s.len() - i,
    {
        let ghost before = split(s@.take(i as int), sep);
        assert(s@.take(i + 1).drop_last() =~= s@.take(i as int));
        if white_space(s[i]) {
            proof {
                lemma_filter_push(before.drop_last(), cur@);
                assert(before.drop_last().push(cur@) =~= before);
                assert(before.push(Seq::<char>::empty()).drop_last() =~= before);
            }
            let ghost old_found = found@;
            if cur.len() > 0 {
                found.push(cur);
                assert(pieces(found@) =~= pieces(old_found).push(cur@));
                cur = Vec::new();
            }
            assert(cur@ =~= Seq::<char>::empty());
        } else {
            cur.push(s[i]);
            assert(split(s@.take(i + 1), sep).drop_last() =~= before.drop_last());
        }
        i = i + 1;
    }
    proof {
        assert(s@.take(s@.len() as int) =~= s@);
        lemma_filter_push(split(s@, sep).drop_last(), cur@);
        assert(split(s@, sep).drop_last().push(cur@) =~= split(s@, sep));
    }
    let ghost old_found = found@;
    if cur.len() > 0 {
        found.push(cur);
        assert(pieces(found@) =~= pieces(old_found).push(cur@));
    }
    found
}

/// The first word of `s`, or the empty text.
pub fn leading_word(s: &Vec<char>) -> (r: Vec<char>)
    ensures
        r@ == first_word(s@),
{
    let found = split_whitespace(s);
    if found.len() > 0 {
        assert(pieces(found@)[0] == found@[0]@);
        slice(&found[0], 0, found[0].len())
    } else {
        Vec::new()
    }
}

// ---------------------------------------------------------------------------
// Lines
// ---------------------------------------------------------------------------

/// A line without the carriage return before its line feed.
pub open spec fn without_return(line: Seq<char>) -> Seq<char> {
    if line.len() > 0 && line.last() == '\r' {
        line.drop_last()
    } else {
        line
    }
}

/// The lines of `s`, without what ends them. The last line need not be ended.
pub open spec fn lines(s: Seq<char>) -> Seq<Seq<char>> {
    let parts = split_any(s, seq!['\n']);
    let ended = parts.drop_last().map_values(|line: Seq<char>| without_return(line));
    if parts.last().len() == 0 {
        ended
    } else {
        ended.push(parts.last())
    }
}

/// The texts one after the other, with `sep` between them.
pub open spec fn join(parts: Seq<Seq<char>>, sep: Seq<char>) -> Seq<char>
    decreases parts.len(),
{
    if parts.len() == 0 {
        Seq::empty()
    } else if parts.len() == 1 {
        parts[0]
    } else {
        join(parts.drop_last(), sep) + sep + parts.last()
    }
}

pub(crate) proof fn lemma_split_is_not_empty(s: Seq<char>, sep: spec_fn(char) -> bool)
    ensures
        split(s, sep).len() > 0,
    decreases s.len(),
{
    if s.len() > 0 {
        lemma_split_is_not_empty(s.drop_last(), sep);
    }
}

/// The lines of `s`.
pub fn lines_of(s: &Vec<char>) -> (r: Vec<Vec<char>>)
    ensures
        pieces(r@) == lines(s@),
{
    let feed = vec!['\n'];
    assert(feed@ =~= seq!['\n']);
    let parts = split_at_any(s, &feed);
    let ghost all = pieces(parts@);
    proof {
        lemma_split_is_not_empty(s@, |c: char| feed@.contains(c));
        assert(all.len() == parts@.len());
    }
    let count = parts.len();
    let mut r: Vec<Vec<char>> = Vec::new();
    let mut i: usize = 0;
    while i < count - 1
        invariant
            count == parts.len(),
            count > 0,
            i <= count - 1,
            all == pieces(parts@),
            r@.len() == i,
            forall|j: int| 0 <= j < i ==> (#[trigger] r@[j])@ == without_return(all[j]),
        decreases count - i,
    {
        let line = &parts[i];
        assert(all[i as int] == line@);
        let n = line.len();
        let kept = if n > 0 && line[n - 1] == '\r' {
            slice(line, 0, n - 1)
        } else {
            slice(line, 0, n)
        };
        assert(kept@ =~= without_return(line@));
        r.push(kept);
        i = i + 1;
    }
    let last = &parts[count - 1];
    assert(all.last() == last@);
    if last.len() > 0 {
        let kept = slice(last, 0, last.len());
        assert(kept@ =~= last@);
        r.push(kept);
    }
    assert(pieces(r@) =~= lines(s@));
    r
}

/// The first `n` texts one after the other, with `sep` between them.
pub fn join_first(parts: &Vec<Vec<char>>, n: usize, sep: &str) -> (r: String)
    requires
        n <= parts.len(),
    ensures
        r@ == join(pieces(parts@).take(n as int), sep@),
{
    let ghost all = pieces(parts@);
    let mut r = String::new();
    let mut i: usize = 0;
    assert(all.take(0) =~= Seq::<Seq<char>>::empty());
    while i < n
        invariant
            i <= n <= parts.len(),
            all == pieces(parts@),
            r@ == join(all.take(i as int), sep@),
        decreases n - i,
    {
        assert(all.take(i + 1).drop_last() =~= all.take(i as int));
        assert(all.take(i + 1).last() == parts@[i as int]@);
        let part = string_of(&parts[i]);
        if i > 0 {
            r.append(sep);
            r.append(part.as_str());
        } else {
            r = part;
        }
        i = i + 1;
    }
    r
}

// ---------------------------------------------------------------------------
// Lower case
// ---------------------------------------------------------------------------

/// A character with the letters A to Z made small.
pub open spec fn ascii_small(c: char) -> char {
    if 'A' <= c <= 'Z' {
        (c as u8 + 32) as char
    } else {
        c
    }
}

/// A text with the letters A to Z made small.
pub open spec fn ascii_lowercase(s: Seq<char>) -> Seq<char> {
    s.map_values(|c: char| ascii_small(c))
}

/// Whether a character is ASCII, or one of the CJK ideographs, which have no case.
pub open spec fn has_plain_case(c: char) -> bool {
    c < '\u{80}' || '\u{4e00}' <= c <= '\u{9fff}'
}

/// Whether all characters of a text are ASCII or CJK ideographs.
pub open spec fn is_plain(s: Seq<char>) -> bool {
    forall|i: int| 0 <= i < s.len() ==> has_plain_case(#[trigger] s[i])
}

/// The lower case of a text with other characters, by the Unicode tables.
pub uninterp spec fn lowercase(s: Seq<char>) -> Seq<char>;

/// The lower case of a text.
pub open spec fn lower(s: Seq<char>) -> Seq<char> {
    if is_plain(s) {
        ascii_lowercase(s)
    } else {
        lowercase(s)
    }
}

/// `str::to_lowercase` of the standard library: the letters A to Z are made small,
/// and what has no case stays as it is, which is claimed of the other ASCII
/// characters and of the CJK ideographs. The lower case of a text with any other
/// character is a function of the text alone; nothing more is claimed of it.
#[verifier::external_body]
pub(crate) fn to_lowercase(s: &str) -> (r: String)
    ensures
        r@ == if is_plain(s@) {
            ascii_lowercase(s@)
        } else {
            lowercase(s@)
        },
{
    s.to_lowercase()
}

/// A character with the letters A to Z made small.
fn to_ascii_small(c: char) -> (r: char)
    ensures
        r == ascii_small(c),
{
    if 'A' <= c && c <= 'Z' {
        (c as u8 + 32) as char
    } else {
        c
    }
}

/// Whether `s` spells `p`, whether the letters A to Z are small or not.
pub fn eq_ignore_ascii_case(s: &Vec<char>, p: &str) -> (r: bool)
    ensures
        r == (ascii_lowercase(s@) == ascii_lowercase(p@)),
{
    let other = chars_of(p);
    let ghost a = ascii_lowercase(s@);
    let ghost b = ascii_lowercase(p@);
    if s.len() != other.len() {
        assert(a.len() != b.len());
        return false;
    }
    let mut i: usize = 0;
    while i < s.len()
        invariant
            i <= s.len() == other.len(),
            other@ == p@,
            a == ascii_lowercase(s@),
            b == ascii_lowercase(p@),
            forall|j: int| 0 <= j < i ==> a[j] == b[j],
        decreases s.len() - i,
    {
        if to_ascii_small(s[i]) != to_ascii_small(other[i]) {
            assert(a[i as int] != b[i as int]);
            return false;
        }
        i = i + 1;
    }
    assert(a =~= b);
    true
}

// ---------------------------------------------------------------------------
// Numbers
// ---------------------------------------------------------------------------

/// The digit of a number below ten.
pub open spec fn digit(d: nat) -> char {
    (48 + d) as char
}

/// A number in decimal notation.
pub open spec fn decimal(n: nat) -> Seq<char>
    decreases n,
{
    if n < 10 {
        seq![digit(n)]
    } else {
        decimal(n / 10).push(digit(n % 10))
    }
}

/// A number in decimal notation.
pub fn decimal_of(n: u64) -> (r: String)
    ensures
        r@ == decimal(n as nat),
    decreases n,
{
    let last = (48u8 + (n % 10) as u8) as char;
    let mut r = if n < 10 {
        String::new()
    } else {
        decimal_of(n / 10)
    };
    r.push(last);
    assert(r@ =~= decimal(n as nat));
    r
}

/// How a time is written that is given in seconds.
pub open spec fn seconds(n: nat) -> Seq<char> {
    if n == 0 {
        "0ns"@
    } else {
        decimal(n) + "s"@
    }
}

/// How a time is written that is given in seconds.
pub fn seconds_of(n: u64) -> (r: String)
    ensures
        r@ == seconds(n as nat),
{
    if n == 0 {
        "0ns".to_owned()
    } else {
        decimal_of(n).concat("s")
    }
}

// ---------------------------------------------------------------------------
// UTF-8
// ---------------------------------------------------------------------------

/// What `String::from_utf8_lossy` makes of bytes that are not UTF-8.
pub uninterp spec fn utf8_lossy(bytes: Seq<u8>) -> Seq<char>;

/// The text that bytes stand for.
pub open spec fn decoded(bytes: Seq<u8>) -> Seq<char> {
    if vstd::utf8::valid_utf8(bytes) {
        vstd::utf8::decode_utf8(bytes)
    } else {
        utf8_lossy(bytes)
    }
}

/// `String::from_utf8_lossy` of the standard library: bytes that are UTF-8 are
/// decoded, and others become a text that depends on the bytes alone. As nothing but
/// replacement characters is put in place of what is not UTF-8, there is no line feed
/// in the text of bytes without one. Where the replacement characters stand is not
/// claimed.
#[verifier::external_body]
pub(crate) fn from_utf8_lossy(bytes: &Vec<u8>) -> (r: String)
    ensures
        r@ == if vstd::utf8::valid_utf8(bytes@) {
            vstd::utf8::decode_utf8(bytes@)
        } else {
            utf8_lossy(bytes@)
        },
        !bytes@.contains(10u8) ==> !r@.contains('\n'),
{
    String::from_utf8_lossy(bytes).into_owned()
}

} // verus!
