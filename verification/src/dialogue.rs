//! What the user says to the agent and what the agent shows: said of the characters that
//! are typed and of those that appear.

use vstd::prelude::*;
use crate::agent::event::EventModel;
use crate::ai::message::MessageModel;
use crate::ai::stream::UsageModel;
use crate::cli::UserLineModel;

verus! {

// ---------------------------------------------------------------------------
// What is typed
// ---------------------------------------------------------------------------

/// Whether a character is a letter, small or capital.
pub open spec fn is_letter(c: char, small: char, capital: char) -> bool {
    c == small || c == capital
}

/// Whether a text is `exit` or `quit`, in whatever case.
pub open spec fn is_farewell(t: Seq<char>) -> bool {
    &&& t.len() == 4
    &&& is_letter(t[2], 'i', 'I') && is_letter(t[3], 't', 'T')
    &&& (is_letter(t[0], 'e', 'E') && is_letter(t[1], 'x', 'X')) || (is_letter(t[0], 'q', 'Q') && is_letter(
        t[1],
        'u',
        'U',
    ))
}

proof fn lemma_small(c: char, small: char)
    requires
        'a' <= small <= 'z',
    ensures
        crate::text::ascii_small(c) == small <==> c == small || (c as int) + 32 == small as int,
{
}

/// The user leaves with `exit` or `quit`, in whatever case, and with nothing else.
pub proof fn lemma_farewell(t: Seq<char>)
    ensures
        crate::cli::means_exit(t) <==> is_farewell(t),
{
    reveal_strlit("exit");
    reveal_strlit("quit");
    let small = crate::text::ascii_lowercase(t);
    let (exit, quit) = (crate::text::ascii_lowercase("exit"@), crate::text::ascii_lowercase("quit"@));
    assert(exit =~= seq!['e', 'x', 'i', 't']);
    assert(quit =~= seq!['q', 'u', 'i', 't']);
    if t.len() == 4 {
        lemma_small(t[0], 'e');
        lemma_small(t[1], 'x');
        lemma_small(t[2], 'i');
        lemma_small(t[3], 't');
        lemma_small(t[0], 'q');
        lemma_small(t[1], 'u');
        if is_farewell(t) {
            if is_letter(t[0], 'e', 'E') {
                assert(small =~= exit);
            } else {
                assert(small =~= quit);
            }
        }
        if small == exit || small == quit {
            assert(small[0] == 'e' || small[0] == 'q');
            assert(small[2] == 'i' && small[3] == 't');
        }
    }
}

/// Whether a word means consent.
pub open spec fn is_yes(w: Seq<char>) -> bool {
    ||| w == "同意"@
    ||| w == "允许"@
    ||| w == "可以"@
    ||| w == "yes"@
    ||| w == "y"@
    ||| w == "ok"@
    ||| w == "批准"@
    ||| w == "sure"@
    ||| w == "go ahead"@
    ||| w == "好的"@
    ||| w == "没问题"@
    ||| w == "当然"@
}

/// A word for consent means it, white space round it apart, and nothing else does.
pub proof fn lemma_consent(lead: Seq<char>, w: Seq<char>, tail: Seq<char>)
    requires
        crate::spelling::is_blank(lead),
        crate::spelling::is_bare(w),
        crate::spelling::is_blank(tail),
    ensures
        crate::cli::means_consent(lead + w + tail) <==> is_yes(w),
{
    crate::spelling::lemma_trim_cuts_off_white_space(lead, w, tail);
    let list = crate::cli::affirmatives();
    assert(list[0] == "同意"@ && list[1] == "允许"@ && list[2] == "可以"@ && list[3] == "yes"@ && list[4] == "y"@);
    assert(list[5] == "ok"@ && list[6] == "批准"@ && list[7] == "sure"@ && list[8] == "go ahead"@);
    assert(list[9] == "好的"@ && list[10] == "没问题"@ && list[11] == "当然"@);
}

/// A line without anything but white space says nothing.
pub proof fn lemma_blank_line(line: Seq<char>, asked: bool)
    requires
        crate::spelling::is_blank(line),
    ensures
        crate::cli::line_meaning(line, asked) is Blank,
{
    let none = Seq::<char>::empty();
    crate::spelling::lemma_trim_cuts_off_white_space(line, none, none);
    assert(line + none + none =~= line);
}

/// What the user types is taken character for character, white space round it apart: as
/// the wish to leave, as the answer if consent was asked for, or else as the task.
pub proof fn lemma_line_is_taken(lead: Seq<char>, t: Seq<char>, tail: Seq<char>)
    requires
        crate::spelling::is_blank(lead),
        crate::spelling::is_bare(t),
        t.len() > 0,
        crate::spelling::is_blank(tail),
    ensures
        ({
            let line = lead + t + tail;
            &&& is_farewell(t) ==> crate::cli::line_meaning(line, true) is Exit && crate::cli::line_meaning(
                line,
                false,
            ) is Exit
            &&& !is_farewell(t) ==> crate::cli::line_meaning(line, false) == UserLineModel::Task(t)
            &&& !is_farewell(t) ==> {
                &&& crate::cli::line_meaning(line, true) matches UserLineModel::Answer { approved, text }
                &&& text == t
                &&& approved == crate::cli::means_consent(crate::text::lower(t))
            }
        }),
{
    let none = Seq::<char>::empty();
    crate::spelling::lemma_trim_cuts_off_white_space(lead, t, tail);
    crate::spelling::lemma_trim_cuts_off_white_space(none, t, none);
    assert(none + t + none =~= t);
    lemma_farewell(t);
}

// ---------------------------------------------------------------------------
// What is shown
// ---------------------------------------------------------------------------

/// Text is shown as it is; of a tool call its name; of an answer its beginning, with the
/// mark of an error if it is one; of a request for consent what it says and the path; and
/// at the end of a turn the tokens.
pub proof fn lemma_events_are_shown(
    text: Seq<char>,
    id: Seq<char>,
    name: Seq<char>,
    input: crate::json::JsonModel,
    path: Seq<char>,
    usage: UsageModel,
    messages: Seq<MessageModel>,
)
    ensures
        crate::cli::display(EventModel::Text(text)) == text,
        crate::cli::display(EventModel::ToolRequest { id, name, input }) == "\n[调用工具: "@ + name + "]\n"@,
        crate::cli::display(
            EventModel::ApprovalRequired { tool_call_id: id, tool_name: name, path, message: text },
        ) == "\n⚠️  "@ + text + "\n   文件路径: "@ + path + "\n   是否同意读取？(同意/拒绝)\n"@,
        crate::cli::display(EventModel::TurnEnd { usage }) == "\n\n--- 回合结束 ---\n输入 tokens: "@
            + crate::text::decimal(usage.input_tokens) + ", 输出 tokens: "@ + crate::text::decimal(usage.output_tokens)
            + "\n"@,
        crate::cli::display(EventModel::Error { message: text, recoverable: true }).len() == 0,
        crate::cli::display(EventModel::Error { message: text, recoverable: false }).len() == 0,
        crate::cli::display(EventModel::Done { messages }).len() == 0,
{
}

/// An answer of at most two hundred characters is shown whole, a longer one up to there.
pub proof fn lemma_answers_are_shown(id: Seq<char>, content: Seq<char>, is_error: bool)
    ensures
        ({
            let shown = crate::cli::display(EventModel::ToolResponse { id, content, is_error });
            let mark = if is_error {
                "[工具错误: "@
            } else {
                "[工具结果: "@
            };
            &&& content.len() <= 200 ==> shown == mark + content + "]\n"@
            &&& content.len() > 200 ==> shown == mark + content.subrange(0, 200) + "]\n"@
        }),
{
    assert(content.len() > 200 ==> content.take(200) =~= content.subrange(0, 200));
}

/// The language model is told of each particular of where it works.
pub proof fn lemma_prompt_tells_everything(
    os: Seq<char>,
    cwd: Seq<char>,
    home: Seq<char>,
    shell: Seq<char>,
    user: Seq<char>,
)
    ensures
        ({
            let p = crate::cli::prompt(os, cwd, home, shell, user);
            &&& crate::text::has_prefix(p, "you are a coding agent at "@ + os)
            &&& crate::text::has_infix(p, "\n- 操作系统: "@ + os + "\n- 当前工作目录: "@)
            &&& crate::text::has_infix(p, "\n- 当前工作目录: "@ + cwd + "\n- 用户主目录: "@)
            &&& crate::text::has_infix(p, "\n- 用户主目录: "@ + home + "\n- 默认 Shell: "@)
            &&& crate::text::has_infix(p, "\n- 默认 Shell: "@ + shell + "\n- 当前用户: "@)
            &&& crate::text::has_suffix(p, "\n- 当前用户: "@ + user)
        }),
{
    let intro = ". Use bash and read_file tools to solve tasks. Act, don't explain.\n\n当前用户环境信息:\n- 操作系统: "@;
    let (at, below, with, by) = ("\n- 当前工作目录: "@, "\n- 用户主目录: "@, "\n- 默认 Shell: "@, "\n- 当前用户: "@);
    let q0 = "you are a coding agent at "@ + os;
    let q1 = q0 + intro + os;
    let q2 = q1 + at + cwd;
    let q3 = q2 + below + home;
    let q4 = q3 + with + shell;
    let p = q4 + by + user;
    assert(p == crate::cli::prompt(os, cwd, home, shell, user));
    let none = Seq::<char>::empty();
    let on = "\n- 操作系统: "@;
    lemma_begins(q0, intro, os);
    lemma_begins(q1, at, cwd);
    lemma_begins(q2, below, home);
    lemma_begins(q3, with, shell);
    lemma_begins(q4, by, user);
    lemma_prefix_of_prefix(q0, q1, q2);
    lemma_prefix_of_prefix(q0, q2, q3);
    lemma_prefix_of_prefix(q0, q3, q4);
    lemma_prefix_of_prefix(q0, q4, p);
    lemma_intro_ends();
    lemma_told(q0 + intro.take(intro.len() - on.len()), on, os, at);
    assert(q0 + intro.take(intro.len() - on.len()) + on =~= q0 + intro);
    lemma_told_still(q1 + at, on + os + at, cwd, below + home, with + shell, by + user);
    lemma_told(q1, at, cwd, below);
    lemma_told_still(q2 + below, at + cwd + below, home, with + shell, by + user, none);
    lemma_told(q2, below, home, with);
    lemma_told_still(q3 + with, below + home + with, shell, by + user, none, none);
    lemma_told(q3, with, shell, by);
    lemma_told_still(q4 + by, with + shell + by, user, none, none, none);
    assert(q1 + at + cwd + (below + home) + (with + shell) + (by + user) =~= p);
    assert(q2 + below + home + (with + shell) + (by + user) + none =~= p);
    assert(q3 + with + shell + (by + user) + none + none =~= p);
    assert(q4 + by + user + none + none + none =~= p);
    assert(p.subrange(p.len() - (by + user).len(), p.len() as int) =~= by + user);
}

proof fn lemma_begins(q: Seq<char>, a: Seq<char>, b: Seq<char>)
    ensures
        crate::text::has_prefix(q + a + b, q),
{
    assert((q + a + b).subrange(0, q.len() as int) =~= q);
}

proof fn lemma_prefix_of_prefix(a: Seq<char>, b: Seq<char>, c: Seq<char>)
    requires
        crate::text::has_prefix(b, a),
        crate::text::has_prefix(c, b),
    ensures
        crate::text::has_prefix(c, a),
{
    assert(c.subrange(0, a.len() as int) =~= b.subrange(0, a.len() as int)) by {
        assert forall|i: int| 0 <= i < a.len() implies c[i] == b[i] by {
            assert(c.subrange(0, b.len() as int)[i] == b[i]);
        }
    }
}

proof fn lemma_intro_ends()
    ensures
        ({
            let intro = ". Use bash and read_file tools to solve tasks. Act, don't explain.\n\n当前用户环境信息:\n- 操作系统: "@;
            let on = "\n- 操作系统: "@;
            intro.len() >= on.len() && intro == intro.take(intro.len() - on.len()) + on
        }),
{
    reveal_strlit(
        ". Use bash and read_file tools to solve tasks. Act, don't explain.\n\n当前用户环境信息:\n- 操作系统: ",
    );
    reveal_strlit("\n- 操作系统: ");
    let intro = ". Use bash and read_file tools to solve tasks. Act, don't explain.\n\n当前用户环境信息:\n- 操作系统: "@;
    let on = "\n- 操作系统: "@;
    assert(intro.skip(intro.len() - on.len()) =~= on);
    assert(intro =~= intro.take(intro.len() - on.len()) + intro.skip(intro.len() - on.len()));
}

proof fn lemma_told(q: Seq<char>, a: Seq<char>, x: Seq<char>, b: Seq<char>)
    ensures
        crate::text::has_infix(q + a + x + b, a + x + b),
{
    let s = q + a + x + b;
    assert(s.subrange(q.len() as int, s.len() as int) =~= a + x + b);
    assert(crate::text::occurs_at(s, a + x + b, q.len() as int));
}

proof fn lemma_told_still(
    s: Seq<char>,
    part: Seq<char>,
    a: Seq<char>,
    b: Seq<char>,
    c: Seq<char>,
    d: Seq<char>,
)
    requires
        crate::text::has_infix(s, part),
    ensures
        crate::text::has_infix(s + a + b + c + d, part),
{
    let i = choose|i: int| crate::text::occurs_at(s, part, i);
    let all = s + a + b + c + d;
    assert(all.subrange(i, i + part.len()) =~= s.subrange(i, i + part.len()));
    assert(crate::text::occurs_at(all, part, i));
}

} // verus!
