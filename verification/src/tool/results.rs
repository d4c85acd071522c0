//! What the tools are asked for and what they give back, in terms of their input and of
//! what came of it.

use vstd::prelude::*;
use crate::json::JsonModel;
use crate::tool::bash::BashOutcomeModel;
use crate::tool::path::ComponentModel;
use crate::tool::read_file::{ReadOutcomeModel, ReadRequestModel};
use crate::tool::registry::Tool;
use crate::tool::write_file::WriteOutcomeModel;

verus! {

/// The text that an object holds under a key.
pub open spec fn text_under(v: JsonModel, key: Seq<char>) -> Option<Seq<char>> {
    match v {
        JsonModel::Object(fields) if fields.contains_key(key) => match fields[key] {
            JsonModel::Str(s) => Some(s),
            _ => None,
        },
        _ => None,
    }
}

/// A field that holds a text gives that text, and no other field gives one.
pub proof fn lemma_string_field(v: JsonModel, key: Seq<char>)
    ensures
        crate::json::string_field(v, key) == text_under(v, key),
{
}

// ---------------------------------------------------------------------------
// Commands
// ---------------------------------------------------------------------------

/// A command goes to the shell as it is, character for character, unless it is refused;
/// a refusal is an error that tells the reason and the command.
pub proof fn lemma_command_is_passed_on(input: JsonModel, command: Seq<char>)
    requires
        text_under(input, "command"@) == Some(command),
        command.len() > 0,
    ensures
        crate::tool::bash::danger(command) is None ==> crate::tool::bash::requested(input) is Ok
            && crate::tool::bash::requested(input)->Ok_0 == command,
        crate::tool::bash::danger(command) matches Some(reason) ==> {
            &&& crate::tool::bash::requested(input) matches Err(o)
            &&& o.content == "安全限制："@ + reason + "\n被拦截的命令: "@ + command
            &&& o.is_error
            &&& !o.needs_approval
        },
{
}

/// Without a command there is nothing to do, which is an error.
pub proof fn lemma_command_is_needed(input: JsonModel)
    requires
        text_under(input, "command"@) is None || text_under(input, "command"@)->0.len() == 0,
    ensures
        ({
            &&& crate::tool::bash::requested(input) matches Err(o)
            &&& o.content == "Error: command parameter is required"@
            &&& o.is_error
            &&& !o.needs_approval
        }),
{
}

/// The text of what a command wrote to a stream.
pub open spec fn stream(bytes: Seq<u8>) -> Seq<char> {
    if bytes.len() == 0 {
        Seq::empty()
    } else {
        crate::text::decoded(bytes)
    }
}

/// What a command wrote is given back whole, whether it succeeded or not: its output
/// comes first, its errors last and under a heading, and that there is none is said. Only
/// the mark of an error depends on the success.
pub proof fn lemma_command_output_is_reported(timeout_secs: u64, stdout: Seq<u8>, stderr: Seq<u8>, success: bool)
    ensures
        ({
            let o = crate::tool::bash::reported(timeout_secs, BashOutcomeModel::Exited { stdout, stderr, success });
            let other = crate::tool::bash::reported(
                timeout_secs,
                BashOutcomeModel::Exited { stdout, stderr, success: !success },
            );
            let (output, errors) = (stream(stdout), stream(stderr));
            &&& o.is_error == !success
            &&& o.content == other.content
            &&& !o.needs_approval
            &&& o.approval_path is None
            &&& output.len() > 0 ==> output.is_prefix_of(o.content)
            &&& stderr.len() > 0 ==> errors.is_suffix_of(o.content)
            &&& stderr.len() == 0 && output.len() > 0 ==> o.content == output
            &&& stderr.len() == 0 && output.len() == 0 ==> o.content == "(无输出)"@
            &&& stderr.len() > 0 && output.len() > 0 ==> o.content == output + "\n--- stderr ---\n"@ + errors
            &&& stderr.len() > 0 && output.len() == 0 ==> o.content == "--- stderr ---\n"@ + errors
        }),
{
    reveal_strlit("\n");
    reveal_strlit("--- stderr ---\n");
    reveal_strlit("\n--- stderr ---\n");
    let o = crate::tool::bash::reported(timeout_secs, BashOutcomeModel::Exited { stdout, stderr, success });
    let (output, errors) = (stream(stdout), stream(stderr));
    if stderr.len() > 0 {
        assert("\n"@ + "--- stderr ---\n"@ =~= "\n--- stderr ---\n"@);
        if output.len() > 0 {
            assert(o.content =~= output + "\n--- stderr ---\n"@ + errors);
        } else {
            assert(o.content =~= "--- stderr ---\n"@ + errors);
        }
        assert(errors =~= o.content.subrange(o.content.len() - errors.len(), o.content.len() as int));
    }
    assert(output =~= o.content.subrange(0, output.len() as int) || output.len() == 0);
}

/// A command that could not be executed or took too long gives back an error that says
/// why.
pub proof fn lemma_command_failure_is_reported(timeout_secs: u64, e: Seq<char>)
    ensures
        ({
            let o = crate::tool::bash::reported(timeout_secs, BashOutcomeModel::NoDirectory(e));
            o.content == "无法获取当前工作目录: "@ + e && o.is_error && !o.needs_approval
        }),
        ({
            let o = crate::tool::bash::reported(timeout_secs, BashOutcomeModel::Failed(e));
            o.content == "执行失败: "@ + e && o.is_error && !o.needs_approval
        }),
        ({
            let o = crate::tool::bash::reported(timeout_secs, BashOutcomeModel::TimedOut);
            o.content == "命令超时 ("@ + crate::text::seconds(timeout_secs as nat) + ")"@ && o.is_error
                && !o.needs_approval
        }),
{
}

/// Bytes that are UTF-8 are read as the text that they stand for.
pub proof fn lemma_bytes_are_read(bytes: Seq<u8>)
    requires
        vstd::utf8::valid_utf8(bytes),
    ensures
        crate::text::decoded(bytes) == vstd::utf8::decode_utf8(bytes),
{
}

// ---------------------------------------------------------------------------
// Files that are written
// ---------------------------------------------------------------------------

/// What is to be written is taken from the input character for character: the path and
/// the whole content.
pub proof fn lemma_write_is_requested(input: JsonModel, path: Seq<char>, content: Seq<char>)
    requires
        text_under(input, "path"@) == Some(path),
        path.len() > 0,
        text_under(input, "content"@) == Some(content),
        content.len() > 0,
    ensures
        ({
            &&& crate::tool::write_file::requested(input) matches Ok(request)
            &&& request.path == path
            &&& request.content == content
        }),
{
}

/// An input without a path, or with a path and without a content, is an error that says
/// what is missing.
pub proof fn lemma_write_needs_both(input: JsonModel)
    requires
        text_under(input, "path"@) is None || text_under(input, "path"@)->0.len() == 0 || text_under(
            input,
            "content"@,
        ) is None || text_under(input, "content"@)->0.len() == 0,
    ensures
        ({
            &&& crate::tool::write_file::requested(input) matches Err(o)
            &&& o.is_error
            &&& !o.needs_approval
            &&& o.content == if text_under(input, "path"@) is None || text_under(input, "path"@)->0.len() == 0 {
                "Error: path parameter is required"@
            } else {
                "Error: content parameter is required"@
            }
        }),
{
}

/// That a file was written is told with its path, and it is the only outcome that is no
/// error; the others say what went wrong.
pub proof fn lemma_writing_is_reported(timeout_secs: u64, path: Seq<char>, o: WriteOutcomeModel)
    ensures
        ({
            let r = crate::tool::write_file::reported(timeout_secs, path, o);
            &&& r.is_error <==> o !is Written
            &&& !r.needs_approval
            &&& r.approval_path is None
            &&& r.content == match o {
                WriteOutcomeModel::Written => "成功写入文件: "@ + path,
                WriteOutcomeModel::NotFound => "文件不存在: "@ + path,
                WriteOutcomeModel::PermissionDenied => "没有权限写入: "@ + path,
                WriteOutcomeModel::InvalidData => "无法以文本方式写入，文件可能是二进制或非 UTF-8 编码: "@ + path,
                WriteOutcomeModel::DirectoryFailed(e) => "创建目录失败: "@ + e,
                WriteOutcomeModel::Failed(e) => "写入文件失败: "@ + e,
                WriteOutcomeModel::TimedOut => "写入文件超时 ("@ + crate::text::seconds(timeout_secs as nat) + ")"@,
            }
        }),
        ({
            let r = crate::tool::write_file::refusal(path);
            &&& r.content == "路径限制：文件 `"@ + path + "` 不在当前工作目录内，不允许写入。"@
            &&& r.is_error
            &&& !r.needs_approval
        }),
{
}

// ---------------------------------------------------------------------------
// Files that are read
// ---------------------------------------------------------------------------

/// What is to be read is taken from the input: the path character for character, and the
/// number of lines if it is given as a number.
pub proof fn lemma_read_is_requested(input: JsonModel, path: Seq<char>)
    requires
        text_under(input, "path"@) == Some(path),
        path.len() > 0,
    ensures
        ({
            &&& crate::tool::read_file::requested(input) matches Some(request)
            &&& request.path == path
            &&& request.limit == match input {
                JsonModel::Object(fields) if fields.contains_key("limit"@) => match fields["limit"@] {
                    JsonModel::Number(n) => crate::json::number_as_u64(n),
                    _ => None,
                },
                _ => None,
            }
        }),
{
}

/// Without a path nothing is read.
pub proof fn lemma_read_needs_a_path(input: JsonModel)
    requires
        text_under(input, "path"@) is None || text_under(input, "path"@)->0.len() == 0,
    ensures
        crate::tool::read_file::requested(input) is None,
{
}

/// Consent is asked for with the path, and it is no error.
pub proof fn lemma_consent_names_the_path(path: Seq<char>)
    ensures
        ({
            let r = crate::tool::read_file::consent_request(path);
            &&& r.needs_approval
            &&& !r.is_error
            &&& r.approval_path == Some(path)
            &&& crate::text::has_prefix(r.content, "路径限制：文件 `"@ + path)
        }),
{
    let r = crate::tool::read_file::consent_request(path);
    let head = "路径限制：文件 `"@ + path;
    assert(r.content.subrange(0, head.len() as int) =~= head);
}

/// Consent goes as far as it was given: a path may be read afterwards if it might before,
/// or if it is the one that the user allowed, as it is written or with its links resolved;
/// no other may.
pub proof fn lemma_consent_is_for_one_path(
    approved: Set<Seq<ComponentModel>>,
    path: Seq<char>,
    canonical: Option<Seq<char>>,
    other: Seq<char>,
)
    ensures
        crate::tool::read_file::is_approved(
            crate::tool::read_file::approved_with(approved, path, canonical),
            other,
            None,
        ) <==> {
            ||| approved.contains(crate::tool::path::components(other))
            ||| crate::tool::path::components(other) == crate::tool::path::components(path)
            ||| canonical is Some && crate::tool::path::components(other) == crate::tool::path::components(canonical->0)
        },
        crate::tool::read_file::is_approved(
            crate::tool::read_file::approved_with(approved, path, canonical),
            path,
            canonical,
        ),
{
}

proof fn lemma_no_feed_in_number(n: nat)
    ensures
        !crate::text::decimal(n).contains('\n'),
{
    crate::spelling::lemma_decimal(n);
}

proof fn lemma_join_then_split(parts: Seq<Seq<char>>)
    requires
        parts.len() > 0,
        forall|i: int| 0 <= i < parts.len() ==> !(#[trigger] parts[i]).contains('\n'),
    ensures
        crate::text::split_any(crate::text::join(parts, "\n"@), seq!['\n']) == parts,
    decreases parts.len(),
{
    reveal_strlit("\n");
    let seps = seq!['\n'];
    assert(seps[0] == '\n');
    assert(seps.contains('\n'));
    let last = parts.last();
    assert(!parts[parts.len() - 1].contains('\n'));
    assert forall|i: int| 0 <= i < last.len() implies !seps.contains(#[trigger] last[i]) by {
        assert(last.contains(last[i]));
    }
    crate::spelling::lemma_split_at_separators(last, '\n', last, seps);
    if parts.len() == 1 {
        assert(parts =~= seq![last]);
    } else {
        let earlier = parts.drop_last();
        assert forall|i: int| 0 <= i < earlier.len() implies !(#[trigger] earlier[i]).contains('\n') by {
            assert(earlier[i] == parts[i]);
        }
        lemma_join_then_split(earlier);
        let before = crate::text::join(earlier, "\n"@);
        crate::spelling::lemma_split_at_separators(before, '\n', last, seps);
        assert(crate::text::join(parts, "\n"@) =~= before.push('\n') + last);
        assert(earlier + seq![last] =~= parts);
    }
}

proof fn lemma_no_feed_in_pieces(s: Seq<char>, i: int)
    requires
        0 <= i < crate::text::split_any(s, seq!['\n']).len(),
    ensures
        !crate::text::split_any(s, seq!['\n'])[i].contains('\n'),
    decreases s.len(),
{
    let seps = seq!['\n'];
    let sep = |c: char| seps.contains(c);
    let pieces = crate::text::split_any(s, seps);
    assert(seps[0] == '\n');
    if s.len() > 0 {
        let rest = s.drop_last();
        let before = crate::text::split_any(rest, seps);
        crate::text::lemma_split_is_not_empty(rest, sep);
        if i < before.len() {
            lemma_no_feed_in_pieces(rest, i);
        }
        if !sep(s.last()) && i == before.len() - 1 {
            assert(pieces[i] == before[i].push(s.last()));
            assert(seps.contains('\n'));
            assert forall|k: int| 0 <= k < pieces[i].len() implies pieces[i][k] != '\n' by {
                if k < before[i].len() {
                    assert(before[i].contains(before[i][k]));
                }
            }
        }
    }
}

/// A file that is shown whole is shown line for line: what stands between the line feeds
/// is the number of the line, a tabulator and the line, and behind a last line feed
/// nothing is added.
pub proof fn lemma_file_is_shown_whole(content: Seq<char>, limit: Option<u64>)
    requires
        limit is None || limit->0 >= crate::text::lines(content).len(),
    ensures
        ({
            let lines = crate::text::split_any(content, seq!['\n']);
            let shown = crate::text::split_any(crate::tool::read_file::shown(content, limit), seq!['\n']);
            &&& shown.len() == lines.len()
            &&& forall|i: int|
                0 <= i < lines.len() ==> #[trigger] shown[i] == if i == lines.len() - 1 && lines[i].len() == 0 {
                    lines[i]
                } else {
                    crate::text::decimal((i + 1) as nat) + "\t"@ + lines[i]
                }
        }),
{
    reveal_strlit("\t");
    let lines = crate::text::split_any(content, seq!['\n']);
    crate::text::lemma_split_is_not_empty(content, |c: char| seq!['\n'].contains(c));
    let count = crate::tool::read_file::line_count(lines);
    let parts = crate::tool::read_file::numbered(lines.take(count)) + lines.skip(count);
    assert(crate::tool::read_file::shown(content, limit) == crate::text::join(parts, "\n"@));
    assert forall|i: int| 0 <= i < parts.len() implies !(#[trigger] parts[i]).contains('\n') by {
        lemma_no_feed_in_pieces(content, i);
        lemma_no_feed_in_number((i + 1) as nat);
        if i < count {
            let number = crate::text::decimal((i + 1) as nat);
            let line = parts[i];
            assert(line =~= number + "\t"@ + lines[i]);
            assert forall|k: int| 0 <= k < line.len() implies line[k] != '\n' by {
                if k < number.len() {
                    assert(number.contains(number[k]));
                } else if k > number.len() {
                    assert(lines[i].contains(lines[i][k - number.len() - 1]));
                }
            }
        } else {
            assert(parts[i] == lines[i]);
        }
    }
    lemma_join_then_split(parts);
}

/// A file with more lines than are asked for is shown up to that line, with the number of
/// each line before it, and with the remark how many of its lines are shown and how many
/// are left.
pub proof fn lemma_file_is_shown_in_part(content: Seq<char>, n: u64)
    requires
        n < crate::text::lines(content).len(),
    ensures
        ({
            let lines = crate::text::lines(content);
            let first = Seq::new(n as nat, |i: int| crate::text::decimal((i + 1) as nat) + "\t"@ + lines[i]);
            crate::tool::read_file::shown(content, Some(n)) == crate::text::join(first, "\n"@)
                + "\n\n--- 文件内容被截断 (已显示 "@ + crate::text::decimal(n as nat) + " 行 / 共 "@
                + crate::text::decimal(lines.len()) + " 行，剩余 "@ + crate::text::decimal((lines.len() - n) as nat)
                + " 行) ---"@
        }),
{
    let lines = crate::text::lines(content);
    let first = Seq::new(n as nat, |i: int| crate::text::decimal((i + 1) as nat) + "\t"@ + lines[i]);
    assert(crate::tool::read_file::numbered(lines.take(n as int)) =~= first);
    let hint = crate::tool::read_file::truncation_hint(n as nat, lines.len());
    assert(crate::tool::read_file::shown(content, Some(n)) == crate::text::join(first, "\n"@) + hint);
    assert(crate::text::join(first, "\n"@) + hint =~= crate::text::join(first, "\n"@)
        + "\n\n--- 文件内容被截断 (已显示 "@ + crate::text::decimal(n as nat) + " 行 / 共 "@ + crate::text::decimal(
        lines.len(),
    ) + " 行，剩余 "@ + crate::text::decimal((lines.len() - n) as nat) + " 行) ---"@);
}

/// What was read of a file is told, and it is the only outcome that is no error; the others
/// say what went wrong.
pub proof fn lemma_reading_is_reported(timeout_secs: u64, request: ReadRequestModel, o: ReadOutcomeModel)
    ensures
        ({
            let r = crate::tool::read_file::reported(timeout_secs, request, o);
            &&& r.is_error <==> o !is Content
            &&& !r.needs_approval
            &&& r.approval_path is None
            &&& r.content == match o {
                ReadOutcomeModel::Content(content) => crate::tool::read_file::shown(content, request.limit),
                ReadOutcomeModel::NotFound => "文件不存在: "@ + request.path,
                ReadOutcomeModel::PermissionDenied => "没有权限读取: "@ + request.path,
                ReadOutcomeModel::InvalidData => "无法以文本方式读取，文件可能是二进制或非 UTF-8 编码: "@ + request.path,
                ReadOutcomeModel::Failed(e) => "读取文件失败: "@ + e,
                ReadOutcomeModel::TimedOut => "读取文件超时 ("@ + crate::text::seconds(timeout_secs as nat) + ")"@,
            }
        }),
{
}

// ---------------------------------------------------------------------------
// Where files lie
// ---------------------------------------------------------------------------

/// A file is written if and only if it lies in the working directory; any other is refused
/// with an error that names it, and no consent helps.
pub proof fn lemma_writing_stays_inside(path: Seq<char>, probe: crate::tool::path::ProbeModel)
    ensures
        crate::tool::write_file::verdict(path, probe) is None <==> crate::tool::path::within_cwd(path, probe),
        crate::tool::write_file::verdict(path, probe) matches Some(o) ==> o.is_error && !o.needs_approval && o.content
            == "路径限制：文件 `"@ + path + "` 不在当前工作目录内，不允许写入。"@,
{
}

/// A file is read without a question if and only if it lies in the working directory or the
/// user has given consent to it; for any other the user is asked, by its path.
pub proof fn lemma_reading_asks_first(
    approved: Set<Seq<ComponentModel>>,
    path: Seq<char>,
    probe: crate::tool::path::ProbeModel,
)
    ensures
        crate::tool::read_file::verdict(approved, path, probe) is None <==> {
            ||| crate::tool::path::within_cwd(path, probe)
            ||| approved.contains(crate::tool::path::components(path))
            ||| probe.canonical is Some && approved.contains(crate::tool::path::components(probe.canonical->0))
        },
        crate::tool::read_file::verdict(approved, path, probe) matches Some(o) ==> o.needs_approval && !o.is_error
            && o.approval_path == Some(path),
{
}

/// Who was given consent is not asked again: after consent to the path in the input, that path
/// is read without a question, wherever it lies; an input without a path changes nothing.
pub proof fn lemma_consent_is_kept(
    m: crate::tool::read_file::ReadFileModel,
    input: JsonModel,
    canonical: Option<Seq<char>>,
    probe: crate::tool::path::ProbeModel,
)
    ensures
        ({
            let after = crate::tool::read_file::with_consent(m, input, canonical);
            &&& after.timeout_secs == m.timeout_secs
            &&& m.approved.subset_of(after.approved)
            &&& text_under(input, "path"@) matches Some(path) ==> crate::tool::read_file::verdict(
                after.approved,
                path,
                probe,
            ) is None
            &&& text_under(input, "path"@) is None ==> after == m
        }),
{
}

// ---------------------------------------------------------------------------
// What the language model is told of the tools
// ---------------------------------------------------------------------------

/// Whether the schema of a tool's input names a field and its type.
pub open spec fn takes(parameters: JsonModel, key: Seq<char>, kind: Seq<char>) -> bool {
    &&& parameters matches JsonModel::Object(fields)
    &&& fields.contains_key("properties"@)
    &&& fields["properties"@] matches JsonModel::Object(properties)
    &&& properties.contains_key(key)
    &&& text_under(properties[key], "type"@) == Some(kind)
}

/// Whether the schema of a tool's input says that exactly these fields must be there.
pub open spec fn needs(parameters: JsonModel, names: Seq<Seq<char>>) -> bool {
    &&& parameters matches JsonModel::Object(fields)
    &&& fields.contains_key("required"@)
    &&& fields["required"@] matches JsonModel::Array(list)
    &&& list.len() == names.len()
    &&& forall|i: int| 0 <= i < names.len() ==> #[trigger] list[i] == JsonModel::Str(names[i])
}

/// The language model is told of each tool the fields that the tool reads, with their types,
/// and which of them it cannot do without.
pub proof fn lemma_tools_say_what_they_read(
    bash: crate::tool::bash::BashTool,
    read: crate::tool::read_file::ReadFileTool,
    write: crate::tool::write_file::WriteFileTool,
)
    ensures
        bash.tool_name() == "bash"@,
        takes(bash.tool_parameters(), "command"@, "string"@),
        needs(bash.tool_parameters(), seq!["command"@]),
        read.tool_name() == "read_file"@,
        takes(read.tool_parameters(), "path"@, "string"@),
        takes(read.tool_parameters(), "limit"@, "integer"@),
        needs(read.tool_parameters(), seq!["path"@]),
        write.tool_name() == "write_file"@,
        takes(write.tool_parameters(), "path"@, "string"@),
        takes(write.tool_parameters(), "content"@, "string"@),
        needs(write.tool_parameters(), seq!["path"@, "content"@]),
{
    reveal_strlit("type");
    reveal_strlit("description");
    reveal_strlit("properties");
    reveal_strlit("required");
    reveal_strlit("path");
    reveal_strlit("limit");
    reveal_strlit("content");
    assert("type"@.len() == 4 && "description"@.len() == 11 && "properties"@.len() == 10 && "required"@.len() == 8);
    assert("path"@.len() == 4 && "limit"@.len() == 5 && "content"@.len() == 7);
}

} // verus!
