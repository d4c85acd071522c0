//! The terminal: what the user's lines mean and what is shown of a run.

use vstd::prelude::*;
use vstd::string::StringExecFns;
use crate::agent::event::{AgentEvent, EventModel};
use crate::text;

verus! {

/// The words that mean consent.
pub open spec fn affirmatives() -> Seq<Seq<char>> {
    seq![
        "同意"@, "允许"@, "可以"@, "yes"@, "y"@, "ok"@, "批准"@, "sure"@, "go ahead"@, "好的"@,
        "没问题"@, "当然"@,
    ]
}

/// Whether a text, given in lower case, means consent. Only the words for it do.
pub open spec fn means_consent(lower: Seq<char>) -> bool {
    text::one_of(text::trim(lower), affirmatives())
}

/// Whether a text, given in lower case, means consent.
pub fn is_affirmative(lower: &str) -> (r: bool)
    ensures
        r == means_consent(lower@),
{
    let words = vec![
        "同意", "允许", "可以", "yes", "y", "ok", "批准", "sure", "go ahead", "好的",
        "没问题", "当然",
    ];
    assert(text::texts(words@) =~= affirmatives());
    text::equals_one_of(&text::trimmed_str(lower), &words)
}

/// Whether what the user says means consent.
pub fn is_approved(input: &str) -> (r: bool)
    ensures
        r == means_consent(text::lower(text::trim(input@))),
{
    let trimmed = text::string_of(&text::trimmed_str(input));
    is_affirmative(text::to_lowercase(trimmed.as_str()).as_str())
}

/// What a line of the user means.
#[derive(Debug, PartialEq, Eq)]
pub enum UserLine {
    /// Nothing.
    Blank,
    /// The user leaves.
    Exit,
    /// The user answers a request for consent.
    Answer { approved: bool, text: String },
    /// The user sets a task.
    Task(String),
}

/// What a line of the user means.
pub enum UserLineModel {
    Blank,
    Exit,
    Answer { approved: bool, text: Seq<char> },
    Task(Seq<char>),
}

impl DeepView for UserLine {
    type V = UserLineModel;

    open spec fn deep_view(&self) -> UserLineModel {
        match *self {
            UserLine::Blank => UserLineModel::Blank,
            UserLine::Exit => UserLineModel::Exit,
            UserLine::Answer { approved, text } => UserLineModel::Answer { approved, text: text@ },
            UserLine::Task(t) => UserLineModel::Task(t@),
        }
    }
}

/// Whether a text is a word with which the user leaves.
pub open spec fn means_exit(t: Seq<char>) -> bool {
    ||| text::ascii_lowercase(t) == text::ascii_lowercase("exit"@)
    ||| text::ascii_lowercase(t) == text::ascii_lowercase("quit"@)
}

/// What a line of the user means. `asked` tells whether the user was asked for
/// consent.
pub open spec fn line_meaning(line: Seq<char>, asked: bool) -> UserLineModel {
    let t = text::trim(line);
    if t.len() == 0 {
        UserLineModel::Blank
    } else if means_exit(t) {
        UserLineModel::Exit
    } else if asked {
        UserLineModel::Answer { approved: means_consent(text::lower(text::trim(t))), text: t }
    } else {
        UserLineModel::Task(t)
    }
}

/// What a line of the user means.
pub fn read_line(line: &str, asked: bool) -> (r: UserLine)
    ensures
        r.deep_view() == line_meaning(line@, asked),
{
    let trimmed = text::trimmed_str(line);
    if trimmed.len() == 0 {
        return UserLine::Blank;
    }
    if text::eq_ignore_ascii_case(&trimmed, "exit") || text::eq_ignore_ascii_case(&trimmed, "quit") {
        return UserLine::Exit;
    }
    let t = text::string_of(&trimmed);
    if asked {
        let approved = is_approved(t.as_str());
        UserLine::Answer { approved, text: t }
    } else {
        UserLine::Task(t)
    }
}

/// What the language model is told of where it works.
pub open spec fn prompt(
    os: Seq<char>,
    cwd: Seq<char>,
    home: Seq<char>,
    shell: Seq<char>,
    user: Seq<char>,
) -> Seq<char> {
    "you are a coding agent at "@ + os
        + ". Use bash and read_file tools to solve tasks. Act, don't explain.\n\n当前用户环境信息:\n- 操作系统: "@ + os
        + "\n- 当前工作目录: "@ + cwd + "\n- 用户主目录: "@ + home + "\n- 默认 Shell: "@ + shell + "\n- 当前用户: "@ + user
}

/// What the language model is told of where it works.
pub fn system_prompt(os: &str, cwd: &str, home: &str, shell: &str, user: &str) -> (r: String)
    ensures
        r@ == prompt(os@, cwd@, home@, shell@, user@),
{
    let mut r = "you are a coding agent at ".to_owned();
    r.append(os);
    r.append(
        ". Use bash and read_file tools to solve tasks. Act, don't explain.\n\n当前用户环境信息:\n- 操作系统: ",
    );
    r.append(os);
    r.append("\n- 当前工作目录: ");
    r.append(cwd);
    r.append("\n- 用户主目录: ");
    r.append(home);
    r.append("\n- 默认 Shell: ");
    r.append(shell);
    r.append("\n- 当前用户: ");
    r.append(user);
    r
}

/// How many characters of a tool's output are shown.
pub const SHOWN_CHARS: usize = 200;

/// The beginning of a text.
pub open spec fn beginning(t: Seq<char>) -> Seq<char> {
    if t.len() > SHOWN_CHARS {
        t.take(SHOWN_CHARS as int)
    } else {
        t
    }
}

/// What is shown of an event. Nothing is shown of an error or of the end.
pub open spec fn display(e: EventModel) -> Seq<char> {
    match e {
        EventModel::Text(t) => t,
        EventModel::ToolRequest { name, .. } => "\n[调用工具: "@ + name + "]\n"@,
        EventModel::ToolResponse { content, is_error, .. } => (if is_error {
            "[工具错误: "@
        } else {
            "[工具结果: "@
        }) + beginning(content) + "]\n"@,
        EventModel::TurnEnd { usage } => "\n\n--- 回合结束 ---\n输入 tokens: "@ + text::decimal(usage.input_tokens)
            + ", 输出 tokens: "@ + text::decimal(usage.output_tokens) + "\n"@,
        EventModel::ApprovalRequired { path, message, .. } => "\n⚠️  "@ + message + "\n   文件路径: "@ + path
            + "\n   是否同意读取？(同意/拒绝)\n"@,
        EventModel::Error { .. } => Seq::empty(),
        EventModel::Done { .. } => Seq::empty(),
    }
}

/// The beginning of a text.
fn first_chars(t: &str) -> (r: String)
    ensures
        r@ == beginning(t@),
{
    let chars = text::chars_of(t);
    if chars.len() > SHOWN_CHARS {
        let kept = text::slice(&chars, 0, SHOWN_CHARS);
        assert(kept@ =~= chars@.take(SHOWN_CHARS as int));
        text::string_of(&kept)
    } else {
        text::string_of(&chars)
    }
}

/// What is shown of an event.
pub fn display_event(event: &AgentEvent) -> (r: String)
    ensures
        r@ == display(event.deep_view()),
{
    match event {
        AgentEvent::Text(t) => t.clone(),
        AgentEvent::ToolRequest { name, .. } => {
            let mut r = "\n[调用工具: ".to_owned();
            r.append(name.as_str());
            r.append("]\n");
            r
        },
        AgentEvent::ToolResponse { content, is_error, .. } => {
            let mut r = if *is_error {
                "[工具错误: ".to_owned()
            } else {
                "[工具结果: ".to_owned()
            };
            r.append(first_chars(content.as_str()).as_str());
            r.append("]\n");
            r
        },
        AgentEvent::TurnEnd { usage } => {
            let mut r = "\n\n--- 回合结束 ---\n输入 tokens: ".to_owned();
            r.append(text::decimal_of(usage.input_tokens).as_str());
            r.append(", 输出 tokens: ");
            r.append(text::decimal_of(usage.output_tokens).as_str());
            r.append("\n");
            r
        },
        AgentEvent::ApprovalRequired { path, message, .. } => {
            let mut r = "\n⚠️  ".to_owned();
            r.append(message.as_str());
            r.append("\n   文件路径: ");
            r.append(path.as_str());
            r.append("\n   是否同意读取？(同意/拒绝)\n");
            r
        },
        AgentEvent::Error { .. } => String::new(),
        AgentEvent::Done { .. } => String::new(),
    }
}

} // verus!
