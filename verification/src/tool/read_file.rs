//! The tool that reads a file.
//!
//! A file in the working directory is read at once. For any other file the user
//! is asked first; the path of a file for which the user gave consent is
//! remembered.

use vstd::prelude::*;
use vstd::string::StringExecFns;
use crate::json::{no_fields, set_field, Json, JsonModel};
use crate::text;
use crate::tool::output::{ToolOutput, ToolOutputModel};
use crate::tool::path::{
    is_within_cwd, path_components, same_path, ComponentModel, PathComponent, PathProbe, ProbeModel,
};
use crate::tool::registry::Tool;
use crate::tool::schema;

verus! {

/// The tool that reads a file.
#[derive(Debug)]
pub struct ReadFileTool {
    timeout_secs: u64,
    approved_external_paths: Vec<Vec<PathComponent>>,
}

/// What the tool is.
pub struct ReadFileModel {
    pub timeout_secs: u64,
    /// The paths that the user has allowed to be read.
    pub approved: Set<Seq<ComponentModel>>,
}

/// The paths in a list.
pub open spec fn paths_in(list: Seq<Vec<PathComponent>>) -> Set<Seq<ComponentModel>> {
    Set::new(|p: Seq<ComponentModel>| exists|i: int| 0 <= i < list.len() && (#[trigger] list[i]).deep_view() == p)
}

impl View for ReadFileTool {
    type V = ReadFileModel;

    closed spec fn view(&self) -> ReadFileModel {
        ReadFileModel { timeout_secs: self.timeout_secs, approved: paths_in(self.approved_external_paths@) }
    }
}

/// What is to be read.
#[derive(Debug)]
pub struct ReadRequest {
    pub path: String,
    /// How many lines are to be read.
    pub limit: Option<u64>,
}

/// What is to be read.
pub struct ReadRequestModel {
    pub path: Seq<char>,
    pub limit: Option<u64>,
}

impl DeepView for ReadRequest {
    type V = ReadRequestModel;

    open spec fn deep_view(&self) -> ReadRequestModel {
        ReadRequestModel { path: self.path@, limit: self.limit }
    }
}

/// What is to be read according to the tool's input, if the input says so.
pub open spec fn requested(input: JsonModel) -> Option<ReadRequestModel> {
    match crate::json::string_field(input, "path"@) {
        Some(path) if path.len() > 0 => Some(
            ReadRequestModel {
                path,
                limit: match input.field("limit"@) {
                    Some(v) => v.unsigned(),
                    None => None,
                },
            },
        ),
        _ => None,
    }
}

/// Whether the user has allowed the path to be read, as it is written or with its
/// links resolved.
pub open spec fn is_approved(
    approved: Set<Seq<ComponentModel>>,
    path: Seq<char>,
    canonical: Option<Seq<char>>,
) -> bool {
    ||| approved.contains(crate::tool::path::components(path))
    ||| canonical is Some && approved.contains(crate::tool::path::components(canonical->0))
}

/// The paths that may be read once the user has given consent to `path`.
pub open spec fn approved_with(
    approved: Set<Seq<ComponentModel>>,
    path: Seq<char>,
    canonical: Option<Seq<char>>,
) -> Set<Seq<ComponentModel>> {
    let approved = approved.insert(crate::tool::path::components(path));
    match canonical {
        Some(c) => approved.insert(crate::tool::path::components(c)),
        None => approved,
    }
}

/// The request for the user's consent to a path.
pub open spec fn consent_request(path: Seq<char>) -> ToolOutputModel {
    crate::tool::output::approval_request(
        "路径限制：文件 `"@ + path
            + "` 不在当前工作目录内。\n需要用户批准才能读取此文件。\n请询问用户是否同意读取，用户同意后系统会批准该路径并重新执行读取。"@,
        path,
    )
}

/// The request for the user's consent to a path, unless it lies in the working directory
/// or the user has given consent to it.
pub open spec fn verdict(
    approved: Set<Seq<ComponentModel>>,
    path: Seq<char>,
    probe: ProbeModel,
) -> Option<ToolOutputModel> {
    if crate::tool::path::within_cwd(path, probe) || is_approved(approved, path, probe.canonical) {
        None
    } else {
        Some(consent_request(path))
    }
}

/// The tool once the user has given consent to the path in the input.
pub open spec fn with_consent(m: ReadFileModel, input: JsonModel, canonical: Option<Seq<char>>) -> ReadFileModel {
    match crate::json::string_field(input, "path"@) {
        Some(path) => ReadFileModel { approved: approved_with(m.approved, path, canonical), ..m },
        None => m,
    }
}

/// How the attempt to read a file ended.
#[derive(Debug)]
pub enum ReadOutcome {
    /// It took too long.
    TimedOut,
    /// There is no such file.
    NotFound,
    /// The file may not be read.
    PermissionDenied,
    /// The file is not text.
    InvalidData,
    /// It failed for another reason.
    Failed(String),
    /// The file was read.
    Content(String),
}

/// How the attempt to read a file ended.
pub enum ReadOutcomeModel {
    TimedOut,
    NotFound,
    PermissionDenied,
    InvalidData,
    Failed(Seq<char>),
    Content(Seq<char>),
}

impl DeepView for ReadOutcome {
    type V = ReadOutcomeModel;

    open spec fn deep_view(&self) -> ReadOutcomeModel {
        match *self {
            ReadOutcome::TimedOut => ReadOutcomeModel::TimedOut,
            ReadOutcome::NotFound => ReadOutcomeModel::NotFound,
            ReadOutcome::PermissionDenied => ReadOutcomeModel::PermissionDenied,
            ReadOutcome::InvalidData => ReadOutcomeModel::InvalidData,
            ReadOutcome::Failed(e) => ReadOutcomeModel::Failed(e@),
            ReadOutcome::Content(c) => ReadOutcomeModel::Content(c@),
        }
    }
}

/// The remark that only `n` of `count` lines are shown.
pub open spec fn truncation_hint(n: nat, count: nat) -> Seq<char> {
    "\n\n--- 文件内容被截断 (已显示 "@ + text::decimal(n) + " 行 / 共 "@ + text::decimal(count) + " 行，剩余 "@
        + text::decimal((count - n) as nat) + " 行) ---"@
}

/// A line with its number before it.
pub open spec fn numbered_line(n: nat, line: Seq<char>) -> Seq<char> {
    text::decimal(n) + "\t"@ + line
}

/// Lines with their numbers before them, counted from 1.
pub open spec fn numbered(lines: Seq<Seq<char>>) -> Seq<Seq<char>> {
    Seq::new(lines.len(), |i: int| numbered_line((i + 1) as nat, lines[i]))
}

/// How many of the pieces between line feeds are lines: an empty one at the end is
/// none.
pub open spec fn line_count(pieces: Seq<Seq<char>>) -> int {
    if pieces.last().len() == 0 {
        pieces.len() - 1
    } else {
        pieces.len() as int
    }
}

/// A text with the number of each line before it.
pub open spec fn numbered_text(content: Seq<char>) -> Seq<char> {
    let pieces = text::split_any(content, seq!['\n']);
    let count = line_count(pieces);
    text::join(numbered(pieces.take(count)) + pieces.skip(count), "\n"@)
}

/// What is shown of a file, with the number of each line before it: its first
/// lines and a remark if it has more lines than the limit, else all of it.
pub open spec fn shown(content: Seq<char>, limit: Option<u64>) -> Seq<char> {
    let lines = text::lines(content);
    match limit {
        Some(n) if n < lines.len() => text::join(numbered(lines.take(n as int)), "\n"@) + truncation_hint(
            n as nat,
            lines.len(),
        ),
        _ => numbered_text(content),
    }
}

/// What the tool gives back.
pub open spec fn reported(timeout_secs: u64, request: ReadRequestModel, o: ReadOutcomeModel) -> ToolOutputModel {
    match o {
        ReadOutcomeModel::TimedOut => crate::tool::output::output(
            "读取文件超时 ("@ + text::seconds(timeout_secs as nat) + ")"@,
            true,
        ),
        ReadOutcomeModel::NotFound => crate::tool::output::output("文件不存在: "@ + request.path, true),
        ReadOutcomeModel::PermissionDenied => crate::tool::output::output("没有权限读取: "@ + request.path, true),
        ReadOutcomeModel::InvalidData => crate::tool::output::output(
            "无法以文本方式读取，文件可能是二进制或非 UTF-8 编码: "@ + request.path,
            true,
        ),
        ReadOutcomeModel::Failed(e) => crate::tool::output::output("读取文件失败: "@ + e, true),
        ReadOutcomeModel::Content(content) => crate::tool::output::output(shown(content, request.limit), false),
    }
}

/// The first `n` lines with their numbers before them.
fn number_lines(lines: &Vec<Vec<char>>, n: usize) -> (r: Vec<Vec<char>>)
    requires
        n <= lines.len(),
    ensures
        text::pieces(r@) == numbered(text::pieces(lines@).take(n as int)),
{
    let mut r: Vec<Vec<char>> = Vec::new();
    let mut i: usize = 0;
    while i < n
        invariant
            i <= n <= lines.len(),
            r@.len() == i,
            forall|j: int| 0 <= j < i ==> (#[trigger] r@[j])@ == numbered_line((j + 1) as nat, lines@[j]@),
        decreases n - i,
    {
        let mut line = text::decimal_of(i as u64 + 1);
        line.append("\t");
        line.append(text::string_of(&lines[i]).as_str());
        r.push(text::chars_of(line.as_str()));
        i = i + 1;
    }
    assert(text::pieces(r@) =~= numbered(text::pieces(lines@).take(n as int)));
    r
}

/// A text with the number of each line before it.
fn number_text(content: &Vec<char>) -> (r: String)
    ensures
        r@ == numbered_text(content@),
{
    let feed = vec!['\n'];
    assert(feed@ =~= seq!['\n']);
    let parts = text::split_at_any(content, &feed);
    let ghost pieces = text::pieces(parts@);
    proof {
        text::lemma_split_is_not_empty(content@, |c: char| seq!['\n'].contains(c));
        assert(pieces.len() == parts@.len());
    }
    let last = parts.len() - 1;
    assert(pieces.last() == parts@[last as int]@);
    let count = if parts[last].len() == 0 {
        last
    } else {
        parts.len()
    };
    let mut r = number_lines(&parts, count);
    let ghost numbered_part = text::pieces(r@);
    if count == last {
        r.push(Vec::new());
    }
    assert(text::pieces(r@) =~= numbered_part + pieces.skip(count as int));
    let all = r.len();
    assert(text::pieces(r@).take(all as int) =~= text::pieces(r@));
    text::join_first(&r, all, "\n")
}

/// What is shown of a file.
fn show(content: String, limit: Option<u64>) -> (r: String)
    ensures
        r@ == shown(content@, limit),
{
    let chars = text::chars_of(content.as_str());
    let lines = text::lines_of(&chars);
    assert(text::pieces(lines@).len() == lines@.len());
    let count = lines.len();
    match limit {
        Some(n) => {
            if n < count as u64 {
                let first = number_lines(&lines, n as usize);
                let all = first.len();
                assert(text::pieces(first@).len() == all);
                assert(text::pieces(first@).take(all as int) =~= text::pieces(first@));
                let mut r = text::join_first(&first, all, "\n");
                r.append("\n\n--- 文件内容被截断 (已显示 ");
                r.append(text::decimal_of(n).as_str());
                r.append(" 行 / 共 ");
                r.append(text::decimal_of(count as u64).as_str());
                r.append(" 行，剩余 ");
                r.append(text::decimal_of(count as u64 - n).as_str());
                r.append(" 行) ---");
                assert(r@ =~= shown(content@, limit));
                r
            } else {
                number_text(&chars)
            }
        },
        None => number_text(&chars),
    }
}

/// Whether a path is in a list.
fn has_path(list: &Vec<Vec<PathComponent>>, path: &Vec<PathComponent>) -> (r: bool)
    ensures
        r == paths_in(list@).contains(path.deep_view()),
{
    let mut i: usize = 0;
    while i < list.len()
        invariant
            i <= list.len(),
            forall|j: int| 0 <= j < i ==> (#[trigger] list@[j]).deep_view() != path.deep_view(),
        decreases list.len() - i,
    {
        if same_path(&list[i], path) {
            return true;
        }
        i = i + 1;
    }
    false
}

impl Default for ReadFileTool {
    fn default() -> (r: Self)
        ensures
            r@.timeout_secs == 30,
            r@.approved == Set::<Seq<ComponentModel>>::empty(),
    {
        ReadFileTool::new(30)
    }
}

impl Tool for ReadFileTool {
    open spec fn tool_name(&self) -> Seq<char> {
        "read_file"@
    }

    open spec fn tool_description(&self) -> Seq<char> {
        "Read file contents from the filesystem. Returns the file text with line numbers. Use to inspect source code, configuration, logs, or any text file. Supports an optional limit parameter to read only the first N lines. Only files within the current working directory can be read directly; reading files outside requires user approval."@
    }

    open spec fn tool_parameters(&self) -> JsonModel {
        crate::tool::schema::object_schema(
            Map::empty().insert(
                "path"@,
                crate::tool::schema::described_schema("string"@, "Absolute path to the file to read"@),
            ).insert(
                "limit"@,
                crate::tool::schema::described_schema("integer"@, "Maximum number of lines to read (optional)"@),
            ),
            seq!["path"@],
        )
    }

    fn name(&self) -> (r: &str) {
        "read_file"
    }

    fn description(&self) -> (r: &str) {
        "Read file contents from the filesystem. Returns the file text with line numbers. Use to inspect source code, configuration, logs, or any text file. Supports an optional limit parameter to read only the first N lines. Only files within the current working directory can be read directly; reading files outside requires user approval."
    }

    fn parameters(&self) -> (r: Json) {
        let mut properties = no_fields();
        set_field(&mut properties, "path", schema::described("string", "Absolute path to the file to read"));
        set_field(
            &mut properties,
            "limit",
            schema::described("integer", "Maximum number of lines to read (optional)"),
        );
        let required = vec!["path"];
        assert(text::texts(required@) =~= seq!["path"@]);
        schema::object(properties, &required)
    }
}

impl ReadFileTool {
    /// The tool, with the seconds that reading may take.
    pub fn new(timeout_secs: u64) -> (r: Self)
        ensures
            r@.timeout_secs == timeout_secs,
            r@.approved == Set::<Seq<ComponentModel>>::empty(),
    {
        let r = ReadFileTool { timeout_secs, approved_external_paths: Vec::new() };
        assert(r@.approved =~= Set::<Seq<ComponentModel>>::empty());
        r
    }

    /// The seconds that reading may take.
    pub fn timeout_secs(&self) -> (r: u64)
        ensures
            r == self@.timeout_secs,
    {
        self.timeout_secs
    }

    /// What is to be read, or the error that the input does not say.
    pub fn request(input: &Json) -> (r: Result<ReadRequest, ToolOutput>)
        ensures
            match requested(input.model()) {
                Some(request) => r is Ok && r->Ok_0.deep_view() == request,
                None => r is Err && r->Err_0.deep_view() == crate::tool::output::output(
                    "Error: path parameter is required"@,
                    true,
                ),
            },
            r matches Ok(request) ==> crate::json::string_field(input.model(), "path"@) == Some(request.path@),
    {
        match input.get_str("path") {
            Some(path) => {
                if !path.is_empty() {
                    let limit = match input.get("limit") {
                        Some(v) => v.as_u64(),
                        None => None,
                    };
                    return Ok(ReadRequest { path: path.to_owned(), limit });
                }
            },
            None => {},
        }
        Err(ToolOutput::error("Error: path parameter is required".to_owned()))
    }

    /// Whether the user has allowed the path to be read.
    pub fn is_path_approved(&self, path: &str, canonical: &Option<String>) -> (r: bool)
        ensures
            r == is_approved(self@.approved, path@, canonical.deep_view()),
    {
        if has_path(&self.approved_external_paths, &path_components(path)) {
            return true;
        }
        match canonical {
            Some(c) => has_path(&self.approved_external_paths, &path_components(c.as_str())),
            None => false,
        }
    }

    /// Asks for the user's consent if it is needed and not given yet.
    pub fn authorize(&self, request: &ReadRequest, probe: &PathProbe) -> (r: Option<ToolOutput>)
        ensures
            r.deep_view() == if crate::tool::path::within_cwd(request.path@, probe.deep_view()) || is_approved(
                self@.approved,
                request.path@,
                probe.deep_view().canonical,
            ) {
                None
            } else {
                Some(consent_request(request.path@))
            },
            r.deep_view() == verdict(self@.approved, request.path@, probe.deep_view()),
    {
        let path = request.path.as_str();
        if is_within_cwd(path, probe) || self.is_path_approved(path, &probe.canonical) {
            return None;
        }
        let mut content = "路径限制：文件 `".to_owned();
        content.append(path);
        content.append(
            "` 不在当前工作目录内。\n需要用户批准才能读取此文件。\n请询问用户是否同意读取，用户同意后系统会批准该路径并重新执行读取。",
        );
        Some(ToolOutput::approval(content, path.to_owned()))
    }

    /// Remembers a path.
    fn remember(&mut self, path: Vec<PathComponent>)
        ensures
            final(self)@ == (ReadFileModel { approved: old(self)@.approved.insert(path.deep_view()), ..old(self)@ }),
    {
        let ghost before = self.approved_external_paths@;
        if !has_path(&self.approved_external_paths, &path) {
            self.approved_external_paths.push(path);
            let ghost after = self.approved_external_paths@;
            assert forall|p: Seq<ComponentModel>|
                paths_in(after).contains(p) <==> paths_in(before).insert(path.deep_view()).contains(p) by {
                if paths_in(before).contains(p) {
                    let i = choose|i: int| 0 <= i < before.len() && (#[trigger] before[i]).deep_view() == p;
                    assert(after[i].deep_view() == p);
                }
                if p == path.deep_view() {
                    assert(after[before.len() as int].deep_view() == p);
                }
                if paths_in(after).contains(p) && p != path.deep_view() {
                    let i = choose|i: int| 0 <= i < after.len() && (#[trigger] after[i]).deep_view() == p;
                    assert(before[i].deep_view() == p);
                }
            }
        }
        assert(self@.approved =~= paths_in(before).insert(path.deep_view()));
    }

    /// Remembers that the user has allowed the path in the input to be read, both
    /// as it is written and with its links resolved.
    pub fn approve(&mut self, input: &Json, canonical: &Option<String>)
        ensures
            final(self)@ == match crate::json::string_field(input.model(), "path"@) {
                Some(path) => ReadFileModel {
                    approved: approved_with(old(self)@.approved, path, canonical.deep_view()),
                    ..old(self)@
                },
                None => old(self)@,
            },
            final(self)@ == with_consent(old(self)@, input.model(), canonical.deep_view()),
    {
        match input.get_str("path") {
            Some(path) => {
                self.remember(path_components(path));
                match canonical {
                    Some(c) => {
                        self.remember(path_components(c.as_str()));
                    },
                    None => {},
                }
            },
            None => {},
        }
    }

    /// What the tool gives back after the attempt to read.
    pub fn report(&self, request: &ReadRequest, outcome: ReadOutcome) -> (r: ToolOutput)
        ensures
            r.deep_view() == reported(self@.timeout_secs, request.deep_view(), outcome.deep_view()),
    {
        let path = request.path.as_str();
        match outcome {
            ReadOutcome::TimedOut => {
                let mut content = "读取文件超时 (".to_owned();
                content.append(text::seconds_of(self.timeout_secs).as_str());
                content.append(")");
                ToolOutput::error(content)
            },
            ReadOutcome::NotFound => ToolOutput::error("文件不存在: ".to_owned().concat(path)),
            ReadOutcome::PermissionDenied => ToolOutput::error("没有权限读取: ".to_owned().concat(path)),
            ReadOutcome::InvalidData => ToolOutput::error(
                "无法以文本方式读取，文件可能是二进制或非 UTF-8 编码: ".to_owned().concat(path),
            ),
            ReadOutcome::Failed(e) => ToolOutput::error("读取文件失败: ".to_owned().concat(e.as_str())),
            ReadOutcome::Content(content) => ToolOutput::ok(show(content, request.limit)),
        }
    }
}

proof fn lemma_infix_of_infix(a: Seq<char>, b: Seq<char>, c: Seq<char>)
    requires
        text::has_infix(b, a),
        text::has_infix(c, b),
    ensures
        text::has_infix(c, a),
{
    let i = choose|i: int| text::occurs_at(b, a, i);
    let j = choose|j: int| text::occurs_at(c, b, j);
    assert(c.subrange(i + j, i + j + a.len()) =~= c.subrange(j, j + b.len()).subrange(i, i + a.len()));
    assert(text::occurs_at(c, a, i + j));
}

proof fn lemma_infix_of_sum(a: Seq<char>, b: Seq<char>, c: Seq<char>)
    ensures
        text::has_infix(a + b + c, b),
{
    assert((a + b + c).subrange(a.len() as int, (a.len() + b.len()) as int) =~= b);
    assert(text::occurs_at(a + b + c, b, a.len() as int));
}

proof fn lemma_join_has(parts: Seq<Seq<char>>, sep: Seq<char>, i: int)
    requires
        0 <= i < parts.len(),
    ensures
        text::has_infix(text::join(parts, sep), parts[i]),
    decreases parts.len(),
{
    let none = Seq::<char>::empty();
    let all = text::join(parts, sep);
    if parts.len() == 1 {
        lemma_infix_of_sum(none, parts[0], none);
        assert(none + parts[0] + none =~= parts[0]);
    } else if i == parts.len() - 1 {
        let before = text::join(parts.drop_last(), sep) + sep;
        lemma_infix_of_sum(before, parts[i], none);
        assert(before + parts[i] + none =~= all);
    } else {
        let short = text::join(parts.drop_last(), sep);
        lemma_join_has(parts.drop_last(), sep, i);
        lemma_infix_of_sum(none, short, sep + parts.last());
        assert(none + short + (sep + parts.last()) =~= all);
        lemma_infix_of_infix(parts[i], short, all);
    }
}

/// Each line of a file that is shown is shown with its number before it.
pub proof fn lemma_lines_are_numbered(content: Seq<char>, limit: Option<u64>, i: int)
    requires
        0 <= i < text::lines(content).len(),
        limit is Some ==> i < limit->0,
    ensures
        text::has_infix(shown(content, limit), numbered_line((i + 1) as nat, text::lines(content)[i])),
{
    let none = Seq::<char>::empty();
    let lines = text::lines(content);
    let line = numbered_line((i + 1) as nat, lines[i]);
    if limit is Some && limit->0 < lines.len() {
        let n = limit->0;
        let parts = numbered(lines.take(n as int));
        let first = text::join(parts, "\n"@);
        let hint = truncation_hint(n as nat, lines.len());
        lemma_join_has(parts, "\n"@, i);
        lemma_infix_of_sum(none, first, hint);
        assert(none + first + hint =~= shown(content, limit));
        lemma_infix_of_infix(line, first, shown(content, limit));
    } else {
        let pieces = text::split_any(content, seq!['\n']);
        text::lemma_split_is_not_empty(content, |c: char| seq!['\n'].contains(c));
        let count = line_count(pieces);
        let parts = numbered(pieces.take(count)) + pieces.skip(count);
        assert(i < count);
        let whole = numbered_line((i + 1) as nat, pieces[i]);
        assert(parts[i] == whole);
        lemma_join_has(parts, "\n"@, i);
        let rest = pieces[i].skip(lines[i].len() as int);
        assert(pieces[i] =~= lines[i] + rest);
        lemma_infix_of_sum(none, line, rest);
        assert(none + line + rest =~= whole);
        lemma_infix_of_infix(line, whole, shown(content, limit));
    }
}

/// Consent holds: once the user has allowed a path to be read, the user is not
/// asked for it again, wherever the path leads.
pub proof fn lemma_consent_holds(
    approved: Set<Seq<ComponentModel>>,
    path: Seq<char>,
    canonical: Option<Seq<char>>,
    later: Option<Seq<char>>,
)
    ensures
        is_approved(approved_with(approved, path, canonical), path, later),
{
}

/// Consent to a path is consent to what it leads to, however that is written.
pub proof fn lemma_consent_to_target(
    approved: Set<Seq<ComponentModel>>,
    path: Seq<char>,
    canonical: Option<Seq<char>>,
    other: Seq<char>,
)
    requires
        canonical is Some,
    ensures
        is_approved(approved_with(approved, path, canonical), other, canonical),
{
}

/// Consent to one path is no consent to another.
pub proof fn lemma_consent_is_narrow(
    approved: Set<Seq<ComponentModel>>,
    path: Seq<char>,
    canonical: Option<Seq<char>>,
    other: Seq<char>,
    target: Option<Seq<char>>,
)
    requires
        !is_approved(approved, other, target),
        crate::tool::path::components(other) != crate::tool::path::components(path),
        canonical is Some ==> crate::tool::path::components(other) != crate::tool::path::components(canonical->0),
        target is Some ==> crate::tool::path::components(target->0) != crate::tool::path::components(path),
        target is Some && canonical is Some ==> crate::tool::path::components(target->0)
            != crate::tool::path::components(canonical->0),
    ensures
        !is_approved(approved_with(approved, path, canonical), other, target),
{
}

} // verus!
