//! What holds of command lines that are made of several commands.

use vstd::prelude::*;
use crate::text;

verus! {

// ---------------------------------------------------------------------------
// The first part that is refused
// ---------------------------------------------------------------------------

/// Whether one of the parts is refused.
pub open spec fn some_part_refused(
    parts: Seq<Seq<char>>,
    reason: spec_fn(Seq<char>) -> Option<Seq<char>>,
) -> bool {
    exists|i: int| 0 <= i < parts.len() && reason(#[trigger] parts[i]) is Some
}

proof fn lemma_first_reason(parts: Seq<Seq<char>>, reason: spec_fn(Seq<char>) -> Option<Seq<char>>)
    ensures
        crate::tool::bash::first_reason(parts, reason) is Some <==> some_part_refused(parts, reason),
    decreases parts.len(),
{
    if parts.len() > 0 {
        let rest = parts.drop_first();
        lemma_first_reason(rest, reason);
        if some_part_refused(rest, reason) {
            let i = choose|i: int| 0 <= i < rest.len() && reason(#[trigger] rest[i]) is Some;
            assert(parts[i + 1] == rest[i]);
        }
        if some_part_refused(parts, reason) {
            let i = choose|i: int| 0 <= i < parts.len() && reason(#[trigger] parts[i]) is Some;
            if i > 0 {
                assert(rest[i - 1] == parts[i]);
            }
        }
    }
}

proof fn lemma_first_of_both(
    a: Seq<Seq<char>>,
    b: Seq<Seq<char>>,
    reason: spec_fn(Seq<char>) -> Option<Seq<char>>,
)
    ensures
        crate::tool::bash::first_reason(a + b, reason) == crate::tool::bash::first_of(
            crate::tool::bash::first_reason(a, reason),
            crate::tool::bash::first_reason(b, reason),
        ),
    decreases a.len(),
{
    if a.len() == 0 {
        assert(a + b =~= b);
    } else {
        lemma_first_of_both(a.drop_first(), b, reason);
        assert((a + b).drop_first() =~= a.drop_first() + b);
    }
}

proof fn lemma_same_reasons(
    a: Seq<Seq<char>>,
    b: Seq<Seq<char>>,
    reason: spec_fn(Seq<char>) -> Option<Seq<char>>,
)
    requires
        a.len() == b.len(),
        forall|i: int| 0 <= i < a.len() ==> reason(#[trigger] a[i]) == reason(b[i]),
    ensures
        crate::tool::bash::first_reason(a, reason) == crate::tool::bash::first_reason(b, reason),
    decreases a.len(),
{
    if a.len() > 0 {
        let (x, y) = (a.drop_first(), b.drop_first());
        assert forall|i: int| 0 <= i < x.len() implies reason(#[trigger] x[i]) == reason(y[i]) by {
            assert(x[i] == a[i + 1]);
        }
        assert(reason(a[0]) == reason(b[0]));
        lemma_same_reasons(x, y, reason);
    }
}

/// A command line is refused exactly if one of its statements is.
pub proof fn lemma_refused_for_a_part(command: Seq<char>)
    ensures
        crate::tool::bash::danger(command) is Some <==> some_part_refused(
            text::split_any(
                crate::tool::bash::plain_operators(text::trim(command)),
                crate::tool::bash::statement_separators(),
            ),
            crate::tool::bash::of_statement(),
        ),
{
    lemma_first_reason(
        text::split_any(
            crate::tool::bash::plain_operators(text::trim(command)),
            crate::tool::bash::statement_separators(),
        ),
        crate::tool::bash::of_statement(),
    );
}

// ---------------------------------------------------------------------------
// Replacing and splitting at a boundary
// ---------------------------------------------------------------------------

proof fn lemma_replaced_at(s: Seq<char>, c: char, t: Seq<char>, from: Seq<char>, to: Seq<char>)
    requires
        from.len() > 0,
        !from.contains(c),
    ensures
        text::replaced(s.push(c) + t, from, to) == text::replaced(s, from, to).push(c) + text::replaced(t, from, to),
    decreases s.len(),
{
    let whole = s.push(c) + t;
    if s.len() == 0 {
        if text::has_prefix(whole, from) {
            assert(whole.subrange(0, from.len() as int)[0] == c);
            assert(from.contains(from[0]));
        }
        assert(whole.drop_first() =~= t);
        assert(text::replaced(whole, from, to) =~= text::replaced(s, from, to).push(c) + text::replaced(t, from, to));
    } else {
        if text::has_prefix(whole, from) {
            if from.len() > s.len() {
                assert(whole.subrange(0, from.len() as int)[s.len() as int] == c);
                assert(from.contains(from[s.len() as int]));
            }
            assert(s.subrange(0, from.len() as int) =~= whole.subrange(0, from.len() as int));
            lemma_replaced_at(s.skip(from.len() as int), c, t, from, to);
            assert(whole.skip(from.len() as int) =~= s.skip(from.len() as int).push(c) + t);
            assert(text::replaced(whole, from, to) =~= text::replaced(s, from, to).push(c) + text::replaced(
                t,
                from,
                to,
            ));
        } else {
            if text::has_prefix(s, from) {
                assert(s.subrange(0, from.len() as int) =~= whole.subrange(0, from.len() as int));
            }
            lemma_replaced_at(s.drop_first(), c, t, from, to);
            assert(whole.drop_first() =~= s.drop_first().push(c) + t);
            assert(text::replaced(whole, from, to) =~= text::replaced(s, from, to).push(c) + text::replaced(
                t,
                from,
                to,
            ));
        }
    }
}

/// Whether a character occurs in none of the operators of two characters and more.
pub open spec fn is_outside_operators(c: char) -> bool {
    c != '&' && c != '|' && c != '>' && c != '1' && c != '2'
}

proof fn lemma_plain_at(s: Seq<char>, c: char, t: Seq<char>)
    requires
        is_outside_operators(c),
    ensures
        crate::tool::bash::plain_operators(s.push(c) + t) == crate::tool::bash::plain_operators(s).push(c)
            + crate::tool::bash::plain_operators(t),
{
    reveal_strlit("&&");
    reveal_strlit("||");
    let (s1, t1) = (text::replaced(s, "&&"@, "\n"@), text::replaced(t, "&&"@, "\n"@));
    lemma_replaced_at(s, c, t, "&&"@, "\n"@);
    let (s2, t2) = (text::replaced(s1, "||"@, "\n"@), text::replaced(t1, "||"@, "\n"@));
    lemma_replaced_at(s1, c, t1, "||"@, "\n"@);
    lemma_redirections_at(s2, c, t2);
}

/// What is done to a command after its `&&` and `||` are replaced.
spec fn plain_redirections(ors: Seq<char>) -> Seq<char> {
    let errors = text::replaced(ors, "2>&1"@, " "@);
    let outputs = text::replaced(errors, "1>&2"@, " "@);
    let appends = text::replaced(outputs, "&>>"@, " >>"@);
    let both = text::replaced(appends, "&>"@, " >"@);
    text::replaced(both, ">&"@, ">"@)
}

proof fn lemma_redirections_at(s2: Seq<char>, c: char, t2: Seq<char>)
    requires
        is_outside_operators(c) || c == '|',
    ensures
        plain_redirections(s2.push(c) + t2) == plain_redirections(s2).push(c) + plain_redirections(t2),
{
    reveal_strlit("2>&1");
    reveal_strlit("1>&2");
    reveal_strlit("&>>");
    reveal_strlit("&>");
    reveal_strlit(">&");
    let (s3, t3) = (text::replaced(s2, "2>&1"@, " "@), text::replaced(t2, "2>&1"@, " "@));
    lemma_replaced_at(s2, c, t2, "2>&1"@, " "@);
    let (s4, t4) = (text::replaced(s3, "1>&2"@, " "@), text::replaced(t3, "1>&2"@, " "@));
    lemma_replaced_at(s3, c, t3, "1>&2"@, " "@);
    let (s5, t5) = (text::replaced(s4, "&>>"@, " >>"@), text::replaced(t4, "&>>"@, " >>"@));
    lemma_replaced_at(s4, c, t4, "&>>"@, " >>"@);
    let (s6, t6) = (text::replaced(s5, "&>"@, " >"@), text::replaced(t5, "&>"@, " >"@));
    lemma_replaced_at(s5, c, t5, "&>"@, " >"@);
    lemma_replaced_at(s6, c, t6, ">&"@, ">"@);
}

proof fn lemma_split_at(s: Seq<char>, c: char, t: Seq<char>, sep: spec_fn(char) -> bool)
    requires
        sep(c),
    ensures
        text::split(s.push(c) + t, sep) == text::split(s, sep) + text::split(t, sep),
    decreases t.len(),
{
    let whole = s.push(c) + t;
    if t.len() == 0 {
        assert(whole =~= s.push(c));
        assert(whole.drop_last() =~= s);
        assert(text::split(whole, sep) =~= text::split(s, sep) + text::split(t, sep));
    } else {
        let short = t.drop_last();
        lemma_split_at(s, c, short, sep);
        text::lemma_split_is_not_empty(short, sep);
        assert(whole.drop_last() =~= s.push(c) + short);
        assert(whole.last() == t.last());
        assert(text::split(whole, sep) =~= text::split(s, sep) + text::split(t, sep));
    }
}

/// The pieces on both sides of a character that does not separate: the last of the
/// one side and the first of the other become one.
spec fn merged(a: Seq<Seq<char>>, c: char, b: Seq<Seq<char>>) -> Seq<Seq<char>> {
    a.drop_last() + seq![a.last().push(c) + b[0]] + b.drop_first()
}

proof fn lemma_split_around(s: Seq<char>, c: char, t: Seq<char>, sep: spec_fn(char) -> bool)
    requires
        !sep(c),
    ensures
        text::split(s.push(c) + t, sep) == merged(text::split(s, sep), c, text::split(t, sep)),
    decreases t.len(),
{
    let whole = s.push(c) + t;
    let a = text::split(s, sep);
    text::lemma_split_is_not_empty(s, sep);
    if t.len() == 0 {
        assert(whole =~= s.push(c));
        assert(whole.drop_last() =~= s);
        let none = text::split(t, sep);
        assert(none =~= seq![Seq::<char>::empty()]);
        assert(a.last().push(c) + none[0] =~= a.last().push(c));
        assert(text::split(whole, sep) =~= merged(a, c, none));
    } else {
        let short = t.drop_last();
        lemma_split_around(s, c, short, sep);
        text::lemma_split_is_not_empty(short, sep);
        assert(whole.drop_last() =~= s.push(c) + short);
        assert(whole.last() == t.last());
        let b = text::split(short, sep);
        let x = t.last();
        let before = merged(a, c, b);
        if sep(x) {
            assert(b.push(Seq::<char>::empty())[0] == b[0]);
            assert(text::split(whole, sep) =~= merged(a, c, text::split(t, sep)));
        } else {
            if b.len() == 1 {
                assert(before.last() =~= a.last().push(c) + b[0]);
                assert((a.last().push(c) + b[0]).push(x) =~= a.last().push(c) + b[0].push(x));
            } else {
                assert(before.last() == b.last());
            }
            assert(text::split(whole, sep) =~= merged(a, c, text::split(t, sep)));
        }
    }
}

// ---------------------------------------------------------------------------
// White space around a command
// ---------------------------------------------------------------------------

proof fn lemma_trim_push(s: Seq<char>, w: char)
    requires
        text::is_white_space(w),
    ensures
        text::trim(s.push(w)) == text::trim(s),
    decreases s.len(),
{
    let long = s.push(w);
    if s.len() == 0 {
        assert(long.drop_first() =~= s);
    } else if text::is_white_space(s[0]) {
        lemma_trim_push(s.drop_first(), w);
        assert(long.drop_first() =~= s.drop_first().push(w));
    } else {
        assert(long.drop_last() =~= s);
        assert(text::trim_start(long) == long);
        assert(text::trim_start(s) == s);
    }
}

/// The text with a character in front.
spec fn after(c: char, s: Seq<char>) -> Seq<char> {
    seq![c] + s
}

proof fn lemma_split_before(line: Seq<char>, w: char, sep: spec_fn(char) -> bool)
    ensures
        ({
            let a = text::split(line, sep);
            let b = text::split(after(w, line), sep);
            if sep(w) {
                b == seq![Seq::<char>::empty()] + a
            } else {
                b == seq![after(w, a[0])] + a.drop_first()
            }
        }),
    decreases line.len(),
{
    let long = after(w, line);
    text::lemma_split_is_not_empty(line, sep);
    if line.len() == 0 {
        assert(long.drop_last() =~= Seq::<char>::empty());
        let none = text::split(Seq::<char>::empty(), sep);
        assert(none =~= seq![Seq::<char>::empty()]);
        if sep(w) {
            assert(text::split(long, sep) =~= seq![Seq::<char>::empty()] + none);
        } else {
            assert(none.last().push(w) =~= after(w, none[0]));
            assert(text::split(long, sep) =~= seq![after(w, none[0])] + none.drop_first());
        }
    } else {
        let short = line.drop_last();
        lemma_split_before(short, w, sep);
        text::lemma_split_is_not_empty(short, sep);
        assert(long.drop_last() =~= after(w, short));
        assert(long.last() == line.last());
        let a = text::split(short, sep);
        let c = line.last();
        if sep(w) {
            assert(text::split(long, sep) =~= seq![Seq::<char>::empty()] + text::split(line, sep));
        } else {
            if a.len() == 1 && !sep(c) {
                assert(after(w, a[0]).push(c) =~= after(w, a[0].push(c)));
            }
            assert(text::split(long, sep) =~= seq![after(w, text::split(line, sep)[0])] + text::split(
                line,
                sep,
            ).drop_first());
        }
    }
}

proof fn lemma_trim_after(w: char, s: Seq<char>)
    requires
        text::is_white_space(w),
    ensures
        text::trim(after(w, s)) == text::trim(s),
{
    assert(after(w, s).drop_first() =~= s);
}

/// Whether white space around a part does not matter to the reason for which it
/// is refused, unless the white space separates.
spec fn ignores_space(sep: spec_fn(char) -> bool, reason: spec_fn(Seq<char>) -> Option<Seq<char>>) -> bool {
    forall|s: Seq<char>, w: char|
        text::is_white_space(w) && !sep(w) ==> #[trigger] reason(s.push(w)) == reason(s) && reason(after(w, s))
            == reason(s)
}

proof fn lemma_space_around_parts(
    line: Seq<char>,
    w: char,
    sep: spec_fn(char) -> bool,
    reason: spec_fn(Seq<char>) -> Option<Seq<char>>,
)
    requires
        text::is_white_space(w),
        ignores_space(sep, reason),
        sep(w) ==> reason(Seq::<char>::empty()) is None,
    ensures
        crate::tool::bash::first_reason(text::split(line.push(w), sep), reason) == crate::tool::bash::first_reason(
            text::split(line, sep),
            reason,
        ),
        crate::tool::bash::first_reason(text::split(after(w, line), sep), reason)
            == crate::tool::bash::first_reason(text::split(line, sep), reason),
{
    let a = text::split(line, sep);
    let nothing = seq![Seq::<char>::empty()];
    text::lemma_split_is_not_empty(line, sep);
    lemma_split_before(line, w, sep);
    assert(line.push(w).drop_last() =~= line);
    let b = text::split(line.push(w), sep);
    let c = text::split(after(w, line), sep);
    if sep(w) {
        lemma_first_reason(nothing, reason);
        assert(crate::tool::bash::first_reason(nothing, reason) is None);
        assert(b =~= a + nothing);
        lemma_first_of_both(a, nothing, reason);
        lemma_first_of_both(nothing, a, reason);
    } else {
        assert(reason(a.last().push(w)) == reason(a.last()));
        assert(reason(a[0].push(w)) == reason(a[0]));
        lemma_same_reasons(b, a, reason);
        lemma_same_reasons(c, a, reason);
    }
}

proof fn lemma_space_around_commands()
    ensures
        ignores_space(
            |c: char| crate::tool::bash::pipeline_separators().contains(c),
            crate::tool::bash::of_pipeline(),
        ),
        ignores_space(
            |c: char| crate::tool::bash::statement_separators().contains(c),
            crate::tool::bash::of_statement(),
        ),
{
    let in_pipeline = |c: char| crate::tool::bash::command_separators().contains(c);
    let in_statement = |c: char| crate::tool::bash::pipeline_separators().contains(c);
    let in_line = |c: char| crate::tool::bash::statement_separators().contains(c);
    let of_command = crate::tool::bash::of_command();
    let of_pipeline = crate::tool::bash::of_pipeline();
    let of_statement = crate::tool::bash::of_statement();
    assert forall|s: Seq<char>, w: char| text::is_white_space(w) && !in_pipeline(w) implies #[trigger] of_command(
        s.push(w),
    ) == of_command(s) && of_command(after(w, s)) == of_command(s) by {
        lemma_trim_push(s, w);
        lemma_trim_after(w, s);
    }
    assert forall|s: Seq<char>, w: char| text::is_white_space(w) && !in_statement(w) implies #[trigger] of_pipeline(
        s.push(w),
    ) == of_pipeline(s) && of_pipeline(after(w, s)) == of_pipeline(s) by {
        lemma_trim_push(s, w);
        lemma_trim_after(w, s);
        assert(!in_pipeline(w));
        lemma_space_around_parts(s, w, in_pipeline, of_command);
    }
    assert forall|s: Seq<char>, w: char| text::is_white_space(w) && !in_line(w) implies #[trigger] of_statement(
        s.push(w),
    ) == of_statement(s) && of_statement(after(w, s)) == of_statement(s) by {
        lemma_trim_push(s, w);
        lemma_trim_after(w, s);
        assert(!in_statement(w));
        lemma_space_around_parts(s, w, in_statement, of_pipeline);
    }
}

proof fn lemma_no_infix_of_nothing(p: Seq<char>)
    requires
        p.len() > 0,
    ensures
        !text::has_infix(Seq::<char>::empty(), p),
{
}

pub(crate) proof fn lemma_nothing_is_allowed()
    ensures
        crate::tool::bash::statement_reason(Seq::<char>::empty()) is None,
{
    let none = Seq::<char>::empty();
    let nothing = seq![none];
    let in_pipeline = |c: char| crate::tool::bash::command_separators().contains(c);
    let in_statement = |c: char| crate::tool::bash::pipeline_separators().contains(c);
    assert(text::split(none, in_pipeline) =~= nothing);
    assert(text::split(none, in_statement) =~= nothing);
    assert(text::trim(none) =~= none);
    assert(crate::tool::bash::download_reason(none) is None) by {
        assert forall|i: int, j: int| !#[trigger] crate::tool::bash::feeds_interpreter(nothing, i, j) by {}
    }
    assert(crate::tool::bash::fork_bomb_reason(none) is None) by {
        reveal_strlit(":(){");
        reveal_strlit(":|:&");
        reveal_strlit("(){(|");
        reveal_strlit("(){:|");
        reveal_strlit("(){");
        assert(text::replaced(none, " "@, ""@) =~= none);
        lemma_no_infix_of_nothing(":(){"@);
        lemma_no_infix_of_nothing(":|:&"@);
        lemma_no_infix_of_nothing("(){(|"@);
        lemma_no_infix_of_nothing("(){:|"@);
        assert forall|k: int, i: int| !#[trigger] crate::tool::bash::pipes_into_itself(none, k, i) by {}
    }
    lemma_first_reason(nothing, crate::tool::bash::of_command());
    lemma_first_reason(nothing, crate::tool::bash::of_pipeline());
}

/// Why a line, whose operators are plain, is refused.
spec fn line_reason(line: Seq<char>) -> Option<Seq<char>> {
    crate::tool::bash::first_reason(
        text::split_any(line, crate::tool::bash::statement_separators()),
        crate::tool::bash::of_statement(),
    )
}

proof fn lemma_space_around_a_line(line: Seq<char>, w: char)
    requires
        text::is_white_space(w),
    ensures
        line_reason(line.push(w)) == line_reason(line),
        line_reason(after(w, line)) == line_reason(line),
{
    lemma_space_around_commands();
    lemma_nothing_is_allowed();
    lemma_space_around_parts(
        line,
        w,
        |c: char| crate::tool::bash::statement_separators().contains(c),
        crate::tool::bash::of_statement(),
    );
}

proof fn lemma_plain_of_nothing()
    ensures
        crate::tool::bash::plain_operators(Seq::<char>::empty()) == Seq::<char>::empty(),
{
}

proof fn lemma_trim_end_does_not_matter(s: Seq<char>)
    ensures
        line_reason(crate::tool::bash::plain_operators(text::trim_end(s))) == line_reason(
            crate::tool::bash::plain_operators(s),
        ),
    decreases s.len(),
{
    if s.len() > 0 && text::is_white_space(s.last()) {
        let before = s.drop_last();
        let none = Seq::<char>::empty();
        lemma_trim_end_does_not_matter(before);
        assert(s =~= before.push(s.last()) + none);
        lemma_plain_at(before, s.last(), none);
        lemma_plain_of_nothing();
        let line = crate::tool::bash::plain_operators(before);
        assert(line.push(s.last()) + none =~= line.push(s.last()));
        lemma_space_around_a_line(line, s.last());
    }
}

proof fn lemma_trim_start_does_not_matter(s: Seq<char>)
    ensures
        line_reason(crate::tool::bash::plain_operators(text::trim_start(s))) == line_reason(
            crate::tool::bash::plain_operators(s),
        ),
    decreases s.len(),
{
    if s.len() > 0 && text::is_white_space(s[0]) {
        let rest = s.drop_first();
        let none = Seq::<char>::empty();
        lemma_trim_start_does_not_matter(rest);
        assert(s =~= none.push(s[0]) + rest);
        lemma_plain_at(none, s[0], rest);
        lemma_plain_of_nothing();
        let line = crate::tool::bash::plain_operators(rest);
        assert(none.push(s[0]) + line =~= after(s[0], line));
        lemma_space_around_a_line(line, s[0]);
    }
}

proof fn lemma_danger(command: Seq<char>)
    ensures
        crate::tool::bash::danger(command) == line_reason(crate::tool::bash::plain_operators(command)),
{
    lemma_trim_start_does_not_matter(command);
    lemma_trim_end_does_not_matter(text::trim_start(command));
}

// ---------------------------------------------------------------------------
// Commands one after the other
// ---------------------------------------------------------------------------

proof fn lemma_line_at(a: Seq<char>, c: char, b: Seq<char>)
    requires
        c == ';' || c == '\n',
    ensures
        line_reason(a.push(c) + b) == crate::tool::bash::first_of(line_reason(a), line_reason(b)),
{
    let sep = |x: char| crate::tool::bash::statement_separators().contains(x);
    assert(crate::tool::bash::statement_separators()[0] == ';');
    assert(crate::tool::bash::statement_separators()[1] == '\n');
    lemma_split_at(a, c, b, sep);
    lemma_first_of_both(text::split(a, sep), text::split(b, sep), crate::tool::bash::of_statement());
}

/// Commands with `;` between them are refused for the reason of the first of them
/// that is refused, and allowed if none is.
pub proof fn lemma_semicolon(a: Seq<char>, b: Seq<char>)
    ensures
        crate::tool::bash::danger(a + ";"@ + b) == if crate::tool::bash::danger(a) is Some {
            crate::tool::bash::danger(a)
        } else {
            crate::tool::bash::danger(b)
        },
{
    reveal_strlit(";");
    assert(a + ";"@ + b =~= a.push(';') + b);
    lemma_danger(a + ";"@ + b);
    lemma_danger(a);
    lemma_danger(b);
    lemma_plain_at(a, ';', b);
    lemma_line_at(crate::tool::bash::plain_operators(a), ';', crate::tool::bash::plain_operators(b));
}

/// Commands on lines of their own are refused for the reason of the first of them
/// that is refused, and allowed if none is.
pub proof fn lemma_line_feed(a: Seq<char>, b: Seq<char>)
    ensures
        crate::tool::bash::danger(a + "\n"@ + b) == if crate::tool::bash::danger(a) is Some {
            crate::tool::bash::danger(a)
        } else {
            crate::tool::bash::danger(b)
        },
{
    reveal_strlit("\n");
    assert(a + "\n"@ + b =~= a.push('\n') + b);
    lemma_danger(a + "\n"@ + b);
    lemma_danger(a);
    lemma_danger(b);
    lemma_plain_at(a, '\n', b);
    lemma_line_at(crate::tool::bash::plain_operators(a), '\n', crate::tool::bash::plain_operators(b));
}

proof fn lemma_replaced_pair(s: Seq<char>, t: Seq<char>, c: char, from: Seq<char>, to: Seq<char>)
    requires
        from == seq![c, c],
        s.len() == 0 || s.last() != c,
    ensures
        text::replaced(s + from + t, from, to) == text::replaced(s, from, to) + to + text::replaced(t, from, to),
    decreases s.len(),
{
    let whole = s + from + t;
    if s.len() == 0 {
        assert(whole.subrange(0, 2) =~= from);
        assert(whole.skip(2) =~= t);
        assert(text::replaced(whole, from, to) =~= text::replaced(s, from, to) + to + text::replaced(t, from, to));
    } else if text::has_prefix(whole, from) {
        assert(whole.subrange(0, 2)[0] == c);
        assert(whole.subrange(0, 2)[1] == c);
        assert(whole[0] == s[0]);
        assert(s.len() >= 2);
        assert(s.subrange(0, 2) =~= whole.subrange(0, 2));
        if s.len() > 2 {
            assert(s.skip(2).last() == s.last());
        }
        lemma_replaced_pair(s.skip(2), t, c, from, to);
        assert(whole.skip(2) =~= s.skip(2) + from + t);
        assert(text::replaced(whole, from, to) =~= text::replaced(s, from, to) + to + text::replaced(t, from, to));
    } else {
        if text::has_prefix(s, from) {
            assert(s.subrange(0, 2) =~= whole.subrange(0, 2));
        }
        if s.len() > 1 {
            assert(s.drop_first().last() == s.last());
        }
        lemma_replaced_pair(s.drop_first(), t, c, from, to);
        assert(whole.drop_first() =~= s.drop_first() + from + t);
        assert(text::replaced(whole, from, to) =~= text::replaced(s, from, to) + to + text::replaced(t, from, to));
    }
}

/// Commands with `&&` between them are refused for the reason of the first of them
/// that is refused, and allowed if none is. The first may not end with `&`, which
/// would make another operator of it.
pub proof fn lemma_and(a: Seq<char>, b: Seq<char>)
    requires
        a.len() == 0 || a.last() != '&',
    ensures
        crate::tool::bash::danger(a + "&&"@ + b) == if crate::tool::bash::danger(a) is Some {
            crate::tool::bash::danger(a)
        } else {
            crate::tool::bash::danger(b)
        },
{
    reveal_strlit("&&");
    reveal_strlit("||");
    reveal_strlit("\n");
    assert("&&"@ =~= seq!['&', '&']);
    lemma_danger(a + "&&"@ + b);
    lemma_danger(a);
    lemma_danger(b);
    lemma_replaced_pair(a, b, '&', "&&"@, "\n"@);
    let (s1, t1) = (text::replaced(a, "&&"@, "\n"@), text::replaced(b, "&&"@, "\n"@));
    assert(s1 + "\n"@ + t1 =~= s1.push('\n') + t1);
    lemma_replaced_at(s1, '\n', t1, "||"@, "\n"@);
    let (s2, t2) = (text::replaced(s1, "||"@, "\n"@), text::replaced(t1, "||"@, "\n"@));
    lemma_redirections_at(s2, '\n', t2);
    lemma_line_at(plain_redirections(s2), '\n', plain_redirections(t2));
}

proof fn lemma_replaced_ends(s: Seq<char>, c: char, from: Seq<char>, to: Seq<char>)
    requires
        from.len() > 0,
        to.len() > 0,
        !to.contains(c),
    ensures
        text::replaced(s, from, to).len() > 0 <==> s.len() > 0,
        s.len() > 0 && s.last() != c ==> text::replaced(s, from, to).last() != c,
        s.len() > 0 && s[0] != c ==> text::replaced(s, from, to)[0] != c,
    decreases s.len(),
{
    if s.len() > 0 {
        assert(to.contains(to[0]));
        assert(to.contains(to.last()));
        if text::has_prefix(s, from) {
            let rest = s.skip(from.len() as int);
            lemma_replaced_ends(rest, c, from, to);
            if rest.len() > 0 {
                assert(rest.last() == s.last());
            }
        } else {
            let rest = s.drop_first();
            lemma_replaced_ends(rest, c, from, to);
            if rest.len() > 0 {
                assert(rest.last() == s.last());
            }
        }
    }
}

/// Commands with `||` between them are refused for the reason of the first of them
/// that is refused, and allowed if none is. The first may not end with `|`, which
/// would make another operator of it.
pub proof fn lemma_or(a: Seq<char>, b: Seq<char>)
    requires
        a.len() == 0 || a.last() != '|',
    ensures
        crate::tool::bash::danger(a + "||"@ + b) == if crate::tool::bash::danger(a) is Some {
            crate::tool::bash::danger(a)
        } else {
            crate::tool::bash::danger(b)
        },
{
    reveal_strlit("&&");
    reveal_strlit("||");
    reveal_strlit("\n");
    assert("||"@ =~= seq!['|', '|']);
    let none = Seq::<char>::empty();
    lemma_danger(a + "||"@ + b);
    lemma_danger(a);
    lemma_danger(b);
    let (s1, t1) = (text::replaced(a, "&&"@, "\n"@), text::replaced(b, "&&"@, "\n"@));
    lemma_replaced_at(none, '|', b, "&&"@, "\n"@);
    lemma_replaced_at(a, '|', none.push('|') + b, "&&"@, "\n"@);
    assert(a + "||"@ + b =~= a.push('|') + (none.push('|') + b));
    assert(s1.push('|') + (none.push('|') + t1) =~= s1 + "||"@ + t1);
    lemma_replaced_ends(a, '|', "&&"@, "\n"@);
    lemma_replaced_pair(s1, t1, '|', "||"@, "\n"@);
    let (s2, t2) = (text::replaced(s1, "||"@, "\n"@), text::replaced(t1, "||"@, "\n"@));
    assert(s2 + "\n"@ + t2 =~= s2.push('\n') + t2);
    lemma_redirections_at(s2, '\n', t2);
    lemma_line_at(plain_redirections(s2), '\n', plain_redirections(t2));
}

proof fn lemma_replaced_single(s: Seq<char>, t: Seq<char>, c: char, from: Seq<char>, to: Seq<char>)
    requires
        from == seq![c, c],
        s.len() == 0 || s.last() != c,
        t.len() == 0 || t[0] != c,
    ensures
        text::replaced(s.push(c) + t, from, to) == text::replaced(s, from, to).push(c) + text::replaced(t, from, to),
    decreases s.len(),
{
    let whole = s.push(c) + t;
    if s.len() == 0 {
        if text::has_prefix(whole, from) {
            assert(whole.subrange(0, 2)[1] == c);
            assert(whole[1] == t[0]);
        }
        assert(whole.drop_first() =~= t);
        assert(text::replaced(whole, from, to) =~= text::replaced(s, from, to).push(c) + text::replaced(t, from, to));
    } else if text::has_prefix(whole, from) {
        assert(whole.subrange(0, 2)[0] == c);
        assert(whole.subrange(0, 2)[1] == c);
        assert(whole[0] == s[0]);
        assert(s.len() >= 2);
        assert(s.subrange(0, 2) =~= whole.subrange(0, 2));
        if s.len() > 2 {
            assert(s.skip(2).last() == s.last());
        }
        lemma_replaced_single(s.skip(2), t, c, from, to);
        assert(whole.skip(2) =~= s.skip(2).push(c) + t);
        assert(text::replaced(whole, from, to) =~= text::replaced(s, from, to).push(c) + text::replaced(t, from, to));
    } else {
        if text::has_prefix(s, from) {
            assert(s.subrange(0, 2) =~= whole.subrange(0, 2));
        }
        if s.len() > 1 {
            assert(s.drop_first().last() == s.last());
        }
        lemma_replaced_single(s.drop_first(), t, c, from, to);
        assert(whole.drop_first() =~= s.drop_first().push(c) + t);
        assert(text::replaced(whole, from, to) =~= text::replaced(s, from, to).push(c) + text::replaced(t, from, to));
    }
}

/// Why one of the simple commands of a pipeline is refused.
pub open spec fn of_commands() -> spec_fn(Seq<char>) -> Option<Seq<char>> {
    |pipeline: Seq<char>| crate::tool::bash::commands_reason(pipeline)
}

/// Why one of the simple commands of a statement is refused.
pub open spec fn of_pipelines() -> spec_fn(Seq<char>) -> Option<Seq<char>> {
    |statement: Seq<char>|
        crate::tool::bash::first_reason(
            text::split_any(statement, crate::tool::bash::pipeline_separators()),
            of_commands(),
        )
}

/// Whether one of the simple commands of a line, whose operators are plain, is
/// refused.
pub open spec fn line_has_refused_command(line: Seq<char>) -> bool {
    some_part_refused(text::split_any(line, crate::tool::bash::statement_separators()), of_pipelines())
}

/// Whether one of the simple commands of a command line is refused.
pub open spec fn has_refused_command(command: Seq<char>) -> bool {
    line_has_refused_command(crate::tool::bash::plain_operators(command))
}

/// Whether a pipe makes no part allowed that is refused without it.
spec fn pipe_hides_nothing(reason: spec_fn(Seq<char>) -> Option<Seq<char>>) -> bool {
    forall|s: Seq<char>, t: Seq<char>|
        reason(s) is Some || reason(t) is Some ==> #[trigger] reason(s.push('|') + t) is Some
}

proof fn lemma_pipe_between(
    s: Seq<char>,
    t: Seq<char>,
    sep: spec_fn(char) -> bool,
    reason: spec_fn(Seq<char>) -> Option<Seq<char>>,
)
    requires
        !sep('|'),
        pipe_hides_nothing(reason),
        some_part_refused(text::split(s, sep), reason) || some_part_refused(text::split(t, sep), reason),
    ensures
        some_part_refused(text::split(s.push('|') + t, sep), reason),
{
    let (a, b) = (text::split(s, sep), text::split(t, sep));
    text::lemma_split_is_not_empty(s, sep);
    text::lemma_split_is_not_empty(t, sep);
    lemma_split_around(s, '|', t, sep);
    let all = merged(a, '|', b);
    let n = a.len() - 1;
    assert(all[n] == a.last().push('|') + b[0]);
    if some_part_refused(a, reason) {
        let i = choose|i: int| 0 <= i < a.len() && reason(#[trigger] a[i]) is Some;
        if i < n {
            assert(all[i] == a[i]);
        } else {
            assert(reason(all[n]) is Some);
        }
    } else {
        let i = choose|i: int| 0 <= i < b.len() && reason(#[trigger] b[i]) is Some;
        if i > 0 {
            assert(all[n + i] == b[i]);
        } else {
            assert(reason(all[n]) is Some);
        }
    }
}

proof fn lemma_pipe_in_pipeline()
    ensures
        pipe_hides_nothing(of_commands()),
{
    let sep = |x: char| crate::tool::bash::command_separators().contains(x);
    let of_command = crate::tool::bash::of_command();
    assert(crate::tool::bash::command_separators()[0] == '|');
    assert forall|s: Seq<char>, t: Seq<char>| of_commands()(s) is Some || of_commands()(t) is Some implies
        #[trigger] of_commands()(s.push('|') + t) is Some by {
        lemma_split_at(s, '|', t, sep);
        lemma_first_of_both(text::split(s, sep), text::split(t, sep), of_command);
    }
}

proof fn lemma_pipe_in_statement()
    ensures
        pipe_hides_nothing(of_pipelines()),
{
    let sep = |x: char| crate::tool::bash::pipeline_separators().contains(x);
    lemma_pipe_in_pipeline();
    assert forall|s: Seq<char>, t: Seq<char>| of_pipelines()(s) is Some || of_pipelines()(t) is Some implies
        #[trigger] of_pipelines()(s.push('|') + t) is Some by {
        lemma_first_reason(text::split(s, sep), of_commands());
        lemma_first_reason(text::split(t, sep), of_commands());
        lemma_first_reason(text::split(s.push('|') + t, sep), of_commands());
        lemma_pipe_between(s, t, sep, of_commands());
    }
}

proof fn lemma_refused_command_refuses(line: Seq<char>)
    requires
        line_has_refused_command(line),
    ensures
        line_reason(line) is Some,
{
    let statements = text::split_any(line, crate::tool::bash::statement_separators());
    let i = choose|i: int| 0 <= i < statements.len() && of_pipelines()(#[trigger] statements[i]) is Some;
    let pipelines = text::split_any(statements[i], crate::tool::bash::pipeline_separators());
    lemma_first_reason(pipelines, of_commands());
    let j = choose|j: int| 0 <= j < pipelines.len() && of_commands()(#[trigger] pipelines[j]) is Some;
    assert(crate::tool::bash::of_pipeline()(pipelines[j]) is Some);
    lemma_first_reason(pipelines, crate::tool::bash::of_pipeline());
    assert(crate::tool::bash::of_statement()(statements[i]) is Some);
    lemma_first_reason(statements, crate::tool::bash::of_statement());
}

/// A pipe hides nothing: a pipeline is refused if a command on either side of it
/// is. The `|` may not be part of `||`.
pub proof fn lemma_pipe(a: Seq<char>, b: Seq<char>)
    requires
        a.len() == 0 || a.last() != '|',
        b.len() == 0 || b[0] != '|',
        has_refused_command(a) || has_refused_command(b),
    ensures
        crate::tool::bash::danger(a + "|"@ + b) is Some,
{
    reveal_strlit("|");
    reveal_strlit("&&");
    reveal_strlit("||");
    reveal_strlit("\n");
    assert("||"@ =~= seq!['|', '|']);
    let whole = a + "|"@ + b;
    assert(whole =~= a.push('|') + b);
    lemma_danger(whole);
    let (s1, t1) = (text::replaced(a, "&&"@, "\n"@), text::replaced(b, "&&"@, "\n"@));
    lemma_replaced_at(a, '|', b, "&&"@, "\n"@);
    lemma_replaced_ends(a, '|', "&&"@, "\n"@);
    lemma_replaced_ends(b, '|', "&&"@, "\n"@);
    let (s2, t2) = (text::replaced(s1, "||"@, "\n"@), text::replaced(t1, "||"@, "\n"@));
    lemma_replaced_single(s1, t1, '|', "||"@, "\n"@);
    lemma_redirections_at(s2, '|', t2);
    let (s, t) = (crate::tool::bash::plain_operators(a), crate::tool::bash::plain_operators(b));
    lemma_pipe_in_statement();
    lemma_pipe_between(
        s,
        t,
        |x: char| crate::tool::bash::statement_separators().contains(x),
        of_pipelines(),
    );
    lemma_refused_command_refuses(s.push('|') + t);
}

// ---------------------------------------------------------------------------
// Redirections
// ---------------------------------------------------------------------------

proof fn lemma_longer_words(s: Seq<char>, more: Seq<char>)
    requires
        more.len() > 0,
        text::is_white_space(more[0]),
    ensures
        text::words(s + more) == text::words(s) + text::words(more.drop_first()),
{
    let sep = |c: char| text::is_white_space(c);
    let rest = more.drop_first();
    assert(s + more =~= s.push(more[0]) + rest);
    lemma_split_at(s, more[0], rest, sep);
    Seq::filter_distributes_over_add(text::split(s, sep), text::split(rest, sep), |w: Seq<char>| w.len() > 0);
}

proof fn lemma_longer_occurs(s: Seq<char>, more: Seq<char>, p: Seq<char>, i: int)
    requires
        text::occurs_at(s, p, i),
    ensures
        text::occurs_at(s + more, p, i),
{
    assert((s + more).subrange(i, i + p.len()) =~= s.subrange(i, i + p.len()));
}

pub(crate) proof fn lemma_longer_infix(s: Seq<char>, more: Seq<char>, p: Seq<char>)
    ensures
        text::has_infix(s, p) ==> text::has_infix(s + more, p),
        text::has_prefix(s, p) ==> text::has_prefix(s + more, p),
{
    if text::has_infix(s, p) {
        let i = choose|i: int| text::occurs_at(s, p, i);
        lemma_longer_occurs(s, more, p, i);
    }
    if text::has_prefix(s, p) {
        lemma_longer_occurs(s, more, p, 0);
    }
}

proof fn lemma_replaced_over(s: Seq<char>, t: Seq<char>, c: char, from: Seq<char>, to: Seq<char>)
    requires
        from == seq![c],
    ensures
        text::replaced(s + t, from, to) == text::replaced(s, from, to) + text::replaced(t, from, to),
    decreases s.len(),
{
    let whole = s + t;
    if s.len() == 0 {
        assert(whole =~= t);
        assert(text::replaced(s, from, to) + text::replaced(t, from, to) =~= text::replaced(t, from, to));
    } else {
        let rest = s.drop_first();
        lemma_replaced_over(rest, t, c, from, to);
        assert(whole.subrange(0, 1) =~= s.subrange(0, 1));
        assert(whole.drop_first() =~= rest + t);
        assert(whole.skip(1) =~= rest + t);
        assert(s.skip(1) =~= rest);
        assert(text::replaced(whole, from, to) =~= text::replaced(s, from, to) + text::replaced(t, from, to));
    }
}

proof fn lemma_longer_rules_on_words(s: Seq<char>, more: Seq<char>)
    requires
        more.len() > 0,
        text::is_white_space(more[0]),
    ensures
        crate::tool::bash::rm_reason(s) is Some ==> crate::tool::bash::rm_reason(s + more) is Some,
        crate::tool::bash::chmod_reason(s) is Some ==> crate::tool::bash::chmod_reason(s + more) is Some,
        crate::tool::bash::chown_reason(s) is Some ==> crate::tool::bash::chown_reason(s + more) is Some,
        crate::tool::bash::git_reason(s) is Some ==> crate::tool::bash::git_reason(s + more) is Some,
        crate::tool::bash::system_control_reason(s) is Some ==> crate::tool::bash::system_control_reason(s + more)
            is Some,
{
    lemma_longer_words(s, more);
    let (a, b) = (text::words(s), text::words(s + more));
    assert forall|j: int| 0 <= j < a.len() implies #[trigger] a[j] == b[j] by {}
    if crate::tool::bash::has_recursive_option(a) {
        let j = choose|j: int| 0 <= j < a.len() && (#[trigger] a[j] == "-R"@ || a[j] == "--recursive"@);
        assert(b[j] == a[j]);
    }
    if crate::tool::bash::rm_reason(s) is Some {
        let i = choose|i: int| 0 <= i < a.len() && crate::tool::bash::is_recursive_option(#[trigger] a[i]);
        let j = choose|j: int|
            1 <= j < a.len() && !text::begins_with(#[trigger] a[j], '-') && crate::tool::bash::is_precious_path(a[j]);
        assert(b[i] == a[i] && b[j] == a[j]);
    }
    if crate::tool::bash::chmod_reason(s) is Some {
        let j = choose|j: int|
            1 <= j < a.len() && !text::begins_with(#[trigger] a[j], '-') && !crate::tool::bash::is_mode_operand(a[j])
                && crate::tool::bash::is_critical_path(a[j]);
        assert(b[j] == a[j]);
    }
    if crate::tool::bash::chown_reason(s) is Some {
        let j = choose|j: int|
            1 <= j < a.len() && !text::begins_with(#[trigger] a[j], '-') && !a[j].contains(':')
                && crate::tool::bash::is_critical_path(a[j]);
        assert(b[j] == a[j]);
    }
    if crate::tool::bash::git_reason(s) is Some {
        let i = choose|i: int|
            0 <= i < a.len() && (#[trigger] a[i] == "--force"@ || a[i] == "-f"@ || a[i] == "--force-with-lease"@);
        let j = choose|j: int| 2 <= j < a.len() && crate::tool::bash::is_protected_branch(#[trigger] a[j]);
        assert(b[i] == a[i] && b[j] == a[j]);
    }
    if crate::tool::bash::system_control_reason(s) is Some {
        lemma_stopping_word_is_a_word(text::first_word(s));
        assert(a.len() > 0);
        assert(text::first_word(s + more) == text::first_word(s));
        if crate::tool::bash::has_stopping_word(a) {
            let j = choose|j: int|
                0 <= j < a.len() && crate::tool::bash::service_manager_reason(text::lower(#[trigger] a[j])) is Some;
            assert(b[j] == a[j]);
        }
    }
}

proof fn lemma_stopping_word_is_a_word(base: Seq<char>)
    requires
        base == "systemctl"@ || base == "launchctl"@ || text::one_of(base, crate::tool::bash::shutdown_commands()),
    ensures
        base.len() > 0,
{
    reveal_strlit("systemctl");
    reveal_strlit("launchctl");
    reveal_strlit("shutdown");
    reveal_strlit("reboot");
    reveal_strlit("halt");
    reveal_strlit("poweroff");
    reveal_strlit("init");
    reveal_strlit("telinit");
}

proof fn lemma_longer_rules_on_text(s: Seq<char>, more: Seq<char>)
    requires
        more.len() > 0,
        text::is_white_space(more[0]),
    ensures
        crate::tool::bash::mkfs_reason(s) is Some ==> crate::tool::bash::mkfs_reason(s + more) is Some,
        crate::tool::bash::redirect_reason(s) is Some ==> crate::tool::bash::redirect_reason(s + more) is Some,
        crate::tool::bash::fork_bomb_reason(s) is Some ==> crate::tool::bash::fork_bomb_reason(s + more) is Some,
{
    lemma_longer_infix(s, more, "mkfs."@);
    lemma_longer_infix(s, more, "mke2fs"@);
    lemma_longer_infix(s, more, "newfs"@);
    lemma_longer_infix(s, more, "cp "@);
    lemma_longer_infix(s, more, " cp "@);
    lemma_longer_infix(s, more, " /dev/"@);
    let devices = crate::tool::bash::block_devices();
    assert forall|k: int| 0 <= k < devices.len() implies (text::has_infix(s, "> "@ + #[trigger] devices[k])
        || text::has_infix(s, ">"@ + devices[k]) ==> text::has_infix(s + more, "> "@ + devices[k]) || text::has_infix(
        s + more,
        ">"@ + devices[k],
    )) by {
        lemma_longer_infix(s, more, "> "@ + devices[k]);
        lemma_longer_infix(s, more, ">"@ + devices[k]);
    }
    let (dense, extra) = (text::replaced(s, " "@, ""@), text::replaced(more, " "@, ""@));
    reveal_strlit(" ");
    assert(" "@ =~= seq![' ']);
    lemma_replaced_over(s, more, ' ', " "@, ""@);
    lemma_longer_infix(s, more, ":(){"@);
    lemma_longer_infix(s, more, ":|:&"@);
    lemma_longer_infix(dense, extra, "(){(|"@);
    lemma_longer_infix(dense, extra, "(){:|"@);
    if exists|k: int, i: int| crate::tool::bash::pipes_into_itself(dense, k, i) {
        let (k, i) = choose|k: int, i: int| crate::tool::bash::pipes_into_itself(dense, k, i);
        let name = dense.subrange(k, i);
        assert((dense + extra).subrange(k, i) =~= name);
        lemma_longer_occurs(dense, extra, "(){"@, i);
        lemma_longer_occurs(dense, extra, name + "|"@ + name + "&"@, i + 3);
        assert(crate::tool::bash::pipes_into_itself(dense + extra, k, i));
    }
}

proof fn lemma_longer_dd(s: Seq<char>, more: Seq<char>)
    requires
        more.len() > 0,
        text::is_white_space(more[0]),
        crate::tool::bash::dd_reason(s) is Some,
    ensures
        crate::tool::bash::dd_reason(s + more) is Some,
{
    reveal_strlit("of=");
    lemma_longer_infix(s, more, "dd "@);
    lemma_longer_infix(s, more, " dd "@);
    let i = choose|i: int| #[trigger] crate::tool::bash::outputs_to_device(s, i);
    lemma_longer_occurs(s, more, "of="@, i);
    let rest = s.skip(i + 3);
    assert((s + more).skip(i + 3) =~= rest + more);
    lemma_longer_words(rest, more);
    assert(text::first_word(rest).len() > 0) by {
        reveal_strlit("/dev/sd");
        reveal_strlit("/dev/nvme");
        reveal_strlit("/dev/mmcblk");
        reveal_strlit("/dev/hd");
        reveal_strlit("/dev/xvd");
        reveal_strlit("/dev/vd");
        reveal_strlit("/dev/disk");
        reveal_strlit("/dev/rdisk");
    }
    assert(text::first_word(rest + more) == text::first_word(rest));
    assert(crate::tool::bash::outputs_to_device(s + more, i));
}

proof fn lemma_longer_command(s: Seq<char>, more: Seq<char>)
    requires
        more.len() > 0,
        text::is_white_space(more[0]),
        crate::tool::bash::simple_command_reason(s) is Some,
    ensures
        crate::tool::bash::simple_command_reason(s + more) is Some,
{
    lemma_longer_rules_on_words(s, more);
    lemma_longer_rules_on_text(s, more);
    if crate::tool::bash::dd_reason(s) is Some {
        lemma_longer_dd(s, more);
    }
}

proof fn lemma_trim_start_of_longer(s: Seq<char>, more: Seq<char>)
    requires
        text::trim_start(s).len() > 0,
    ensures
        text::trim_start(s + more) == text::trim_start(s) + more,
    decreases s.len(),
{
    if text::is_white_space(s[0]) {
        lemma_trim_start_of_longer(s.drop_first(), more);
        assert((s + more).drop_first() =~= s.drop_first() + more);
    }
}

proof fn lemma_trim_end_of_longer(s: Seq<char>, more: Seq<char>)
    requires
        text::trim_end(more).len() > 0,
    ensures
        text::trim_end(s + more) == s + text::trim_end(more),
    decreases more.len(),
{
    if text::is_white_space(more.last()) {
        lemma_trim_end_of_longer(s, more.drop_last());
        assert((s + more).drop_last() =~= s + more.drop_last());
    }
}

/// A command with a redirection behind it.
spec fn redirected(s: Seq<char>, y: Seq<char>) -> Seq<char> {
    s.push(' ') + after('>', y)
}

proof fn lemma_redirected_command(s: Seq<char>, y: Seq<char>)
    requires
        crate::tool::bash::of_command()(s) is Some,
    ensures
        crate::tool::bash::of_command()(redirected(s, y)) is Some,
{
    let target = seq![' '] + after('>', y);
    let begun = text::trim_start(s);
    let d = text::trim(s);
    assert(redirected(s, y) =~= s + target);
    text::lemma_trim_end(begun);
    text::lemma_trim_end(target);
    let kept = text::trim_end(target);
    assert(target[1] == '>');
    if kept.len() < 2 {
        assert(text::is_white_space(target[1]));
    }
    assert(kept[0] == ' ');
    lemma_trim_start_of_longer(s, target);
    lemma_trim_end_of_longer(begun, target);
    let more = begun.skip(d.len() as int) + kept;
    assert(text::trim(redirected(s, y)) =~= d + more);
    if d.len() < begun.len() {
        assert(text::is_white_space(begun[d.len() as int]));
    }
    lemma_longer_command(d, more);
}

/// Whether a redirection makes no part allowed that is refused without it.
spec fn redirection_hides_nothing(reason: spec_fn(Seq<char>) -> Option<Seq<char>>) -> bool {
    forall|s: Seq<char>, y: Seq<char>| reason(s) is Some ==> #[trigger] reason(redirected(s, y)) is Some
}

proof fn lemma_redirection_behind(
    s: Seq<char>,
    y: Seq<char>,
    sep: spec_fn(char) -> bool,
    reason: spec_fn(Seq<char>) -> Option<Seq<char>>,
)
    requires
        !sep(' '),
        !sep('>'),
        redirection_hides_nothing(reason),
        some_part_refused(text::split(s, sep), reason),
    ensures
        some_part_refused(text::split(redirected(s, y), sep), reason),
{
    let target = after('>', y);
    let (a, b) = (text::split(s, sep), text::split(target, sep));
    text::lemma_split_is_not_empty(s, sep);
    text::lemma_split_is_not_empty(y, sep);
    lemma_split_before(y, '>', sep);
    lemma_split_around(s, ' ', target, sep);
    let all = merged(a, ' ', b);
    let n = a.len() - 1;
    let first = text::split(y, sep)[0];
    assert(b[0] == after('>', first));
    assert(all[n] == redirected(a.last(), first));
    let i = choose|i: int| 0 <= i < a.len() && reason(#[trigger] a[i]) is Some;
    if i < n {
        assert(all[i] == a[i]);
    } else {
        assert(reason(all[n]) is Some);
    }
}

proof fn lemma_redirection_in_statement()
    ensures
        redirection_hides_nothing(of_pipelines()),
{
    let in_pipeline = |x: char| crate::tool::bash::command_separators().contains(x);
    let in_statement = |x: char| crate::tool::bash::pipeline_separators().contains(x);
    let of_command = crate::tool::bash::of_command();
    assert forall|s: Seq<char>, y: Seq<char>| of_command(s) is Some implies #[trigger] of_command(redirected(s, y))
        is Some by {
        lemma_redirected_command(s, y);
    }
    assert forall|s: Seq<char>, y: Seq<char>| of_commands()(s) is Some implies #[trigger] of_commands()(
        redirected(s, y),
    ) is Some by {
        lemma_first_reason(text::split(s, in_pipeline), of_command);
        lemma_first_reason(text::split(redirected(s, y), in_pipeline), of_command);
        lemma_redirection_behind(s, y, in_pipeline, of_command);
    }
    assert forall|s: Seq<char>, y: Seq<char>| of_pipelines()(s) is Some implies #[trigger] of_pipelines()(
        redirected(s, y),
    ) is Some by {
        lemma_first_reason(text::split(s, in_statement), of_commands());
        lemma_first_reason(text::split(redirected(s, y), in_statement), of_commands());
        lemma_redirection_behind(s, y, in_statement, of_commands());
    }
}

/// The target of a redirection, when the operator before it is `&>`.
spec fn both_outputs(b: Seq<char>) -> Seq<char> {
    seq!['&', '>'] + b
}

proof fn lemma_replaced_passes(b: Seq<char>, from: Seq<char>, to: Seq<char>)
    requires
        from.len() >= 2,
        from[0] != '>',
        from[0] != '&' || from[1] != '>',
    ensures
        text::replaced(both_outputs(b), from, to) == both_outputs(text::replaced(b, from, to)),
{
    let whole = both_outputs(b);
    let rest = after('>', b);
    if text::has_prefix(whole, from) {
        assert(whole.subrange(0, from.len() as int)[0] == '&');
        assert(whole.subrange(0, from.len() as int)[1] == '>');
    }
    assert(whole.drop_first() =~= rest);
    lemma_greater_stays(b, from, to);
    assert(text::replaced(whole, from, to) =~= both_outputs(text::replaced(b, from, to)));
}

proof fn lemma_both_outputs(b: Seq<char>) -> (y: Seq<char>)
    ensures
        plain_redirections(both_outputs(b)) == seq![' '] + after('>', y),
{
    reveal_strlit("2>&1");
    reveal_strlit("1>&2");
    reveal_strlit("&>>");
    reveal_strlit("&>");
    reveal_strlit(">&");
    reveal_strlit(" ");
    reveal_strlit(" >>");
    reveal_strlit(" >");
    reveal_strlit(">");
    let b3 = text::replaced(b, "2>&1"@, " "@);
    lemma_replaced_passes(b, "2>&1"@, " "@);
    let b4 = text::replaced(b3, "1>&2"@, " "@);
    lemma_replaced_passes(b3, "1>&2"@, " "@);
    let whole = both_outputs(b4);
    let appends = text::replaced(whole, "&>>"@, " >>"@);
    let both = text::replaced(appends, "&>"@, " >"@);
    assert(exists|z: Seq<char>| both == seq![' '] + #[trigger] after('>', z)) by {
        if text::has_prefix(whole, "&>>"@) {
            let x = text::replaced(whole.skip(3), "&>>"@, " >>"@);
            let z = seq!['>'] + x;
            assert(appends =~= seq![' '] + after('>', z));
            lemma_blank_stays(after('>', z), "&>"@, " >"@);
            lemma_greater_stays(z, "&>"@, " >"@);
            assert(both =~= seq![' '] + after('>', text::replaced(z, "&>"@, " >"@)));
        } else {
            let rest = after('>', b4);
            assert(whole.drop_first() =~= rest);
            lemma_greater_stays(b4, "&>>"@, " >>"@);
            let b5 = text::replaced(b4, "&>>"@, " >>"@);
            assert(appends =~= both_outputs(b5));
            assert(appends.subrange(0, 2) =~= "&>"@);
            assert(appends.skip(2) =~= b5);
            assert(both =~= seq![' '] + after('>', text::replaced(b5, "&>"@, " >"@)));
        }
    }
    let z = choose|z: Seq<char>| both == seq![' '] + #[trigger] after('>', z);
    lemma_blank_stays(after('>', z), ">&"@, ">"@);
    let tail = text::replaced(after('>', z), ">&"@, ">"@);
    assert(tail.len() > 0 && tail[0] == '>') by {
        if text::has_prefix(after('>', z), ">&"@) {
            assert(tail =~= ">"@ + text::replaced(after('>', z).skip(2), ">&"@, ">"@));
        } else {
            assert(tail =~= seq!['>'] + text::replaced(after('>', z).drop_first(), ">&"@, ">"@));
        }
    }
    assert(tail =~= after('>', tail.drop_first()));
    tail.drop_first()
}

proof fn lemma_blank_stays(t: Seq<char>, from: Seq<char>, to: Seq<char>)
    requires
        from.len() > 0,
        from[0] != ' ',
    ensures
        text::replaced(seq![' '] + t, from, to) == seq![' '] + text::replaced(t, from, to),
{
    let whole = seq![' '] + t;
    if text::has_prefix(whole, from) {
        assert(whole.subrange(0, from.len() as int)[0] == ' ');
    }
    assert(whole.drop_first() =~= t);
}

proof fn lemma_greater_stays(t: Seq<char>, from: Seq<char>, to: Seq<char>)
    requires
        from.len() > 0,
        from[0] != '>',
    ensures
        text::replaced(after('>', t), from, to) == after('>', text::replaced(t, from, to)),
{
    let whole = after('>', t);
    if text::has_prefix(whole, from) {
        assert(whole.subrange(0, from.len() as int)[0] == '>');
    }
    assert(whole.drop_first() =~= t);
}

/// A redirection of both outputs hides nothing: a command line is refused if one of
/// the simple commands before the `&>` is. The line before may not end with a
/// character of an operator, which would make another operator of it.
pub proof fn lemma_both_outputs_hide_nothing(a: Seq<char>, b: Seq<char>)
    requires
        a.len() == 0 || is_outside_operators(a.last()),
        has_refused_command(a),
    ensures
        crate::tool::bash::danger(a + "&>"@ + b) is Some,
{
    reveal_strlit("&>");
    reveal_strlit("&&");
    reveal_strlit("||");
    let target = both_outputs(b);
    let whole = a + "&>"@ + b;
    let line = crate::tool::bash::plain_operators(a);
    lemma_danger(whole);
    if a.len() == 0 {
        lemma_plain_of_nothing();
        assert(a =~= Seq::<char>::empty());
        lemma_refused_command_refuses(line);
        lemma_nothing_is_allowed();
        let sep = |c: char| crate::tool::bash::statement_separators().contains(c);
        assert(text::split(line, sep) =~= seq![Seq::<char>::empty()]);
        lemma_first_reason(text::split(line, sep), crate::tool::bash::of_statement());
        assert(false);
    }
    let (s, c) = (a.drop_last(), a.last());
    assert(a =~= s.push(c));
    assert(whole =~= s.push(c) + target);
    let none = Seq::<char>::empty();
    assert(a =~= s.push(c) + none);
    lemma_plain_at(s, c, target);
    lemma_plain_at(s, c, none);
    lemma_plain_of_nothing();
    assert(line =~= crate::tool::bash::plain_operators(s).push(c));
    lemma_replaced_passes(b, "&&"@, "\n"@);
    let b1 = text::replaced(b, "&&"@, "\n"@);
    lemma_replaced_passes(b1, "||"@, "\n"@);
    let b2 = text::replaced(b1, "||"@, "\n"@);
    let y = lemma_both_outputs(b2);
    assert(crate::tool::bash::plain_operators(target) == seq![' '] + after('>', y));
    assert(crate::tool::bash::plain_operators(whole) =~= redirected(line, y));
    lemma_redirection_in_statement();
    lemma_redirection_behind(
        line,
        y,
        |x: char| crate::tool::bash::statement_separators().contains(x),
        of_pipelines(),
    );
    lemma_refused_command_refuses(redirected(line, y));
}

// ---------------------------------------------------------------------------
// Paths
// ---------------------------------------------------------------------------

/// Every absolute path is critical, and so is every path below the home
/// directory.
pub proof fn lemma_absolute_paths_are_critical(word: Seq<char>)
    requires
        text::has_prefix(word, "/"@) || text::has_prefix(word, "~/"@),
    ensures
        crate::tool::bash::is_critical_path(word),
{
    reveal_strlit("/");
    reveal_strlit("~/");
    let paths = crate::tool::bash::critical_paths();
    assert(paths[0] == "/"@);
    assert(paths[4] == "~/"@);
    assert("/"@.subrange(0, 1) =~= "/"@);
    assert("~/"@.subrange(1, 2) =~= "/"@);
    if text::has_prefix(word, "/"@) {
        assert(text::has_prefix(word, paths[0]) && text::has_suffix(paths[0], "/"@));
    } else {
        assert(text::has_prefix(word, paths[4]) && text::has_suffix(paths[4], "/"@));
    }
}

} // verus!
