//! The bash tool: which shell commands are refused, and what is reported of one
//! that ran.

use vstd::prelude::*;
use vstd::string::StringExecFns;
use crate::json::{no_fields, set_field, Json, JsonModel};
use crate::text;
use crate::tool::output::{ToolOutput, ToolOutputModel};
use crate::tool::registry::Tool;
use crate::tool::schema;

verus! {

// ---------------------------------------------------------------------------
// What is refused
// ---------------------------------------------------------------------------

/// The paths that no recursive command may touch.
pub open spec fn critical_paths() -> Seq<Seq<char>> {
    seq![
        "/"@, "/*"@, "/."@, "/.."@, "~/"@, "~/*"@, "/bin"@, "/boot"@, "/dev"@, "/etc"@, "/home"@,
        "/lib"@, "/lib64"@, "/opt"@, "/proc"@, "/root"@, "/sbin"@, "/srv"@, "/sys"@, "/usr"@,
        "/var"@, "/System"@,
    ]
}

/// Whether `word` is a critical path, or lies below one that is written with a
/// trailing slash.
pub open spec fn is_critical_path(word: Seq<char>) -> bool {
    exists|k: int|
        0 <= k < critical_paths().len() && (word == #[trigger] critical_paths()[k] || (text::has_prefix(
            word,
            critical_paths()[k],
        ) && text::has_suffix(critical_paths()[k], "/"@)))
}

/// The beginnings of the names of block devices.
pub open spec fn block_devices() -> Seq<Seq<char>> {
    seq![
        "/dev/sd"@, "/dev/nvme"@, "/dev/mmcblk"@, "/dev/hd"@, "/dev/xvd"@, "/dev/vd"@,
        "/dev/disk"@, "/dev/rdisk"@,
    ]
}

/// The branches that may not be pushed to by force.
pub open spec fn protected_branches() -> Seq<Seq<char>> {
    seq!["main"@, "master"@, "production"@, "prod"@, "release"@]
}

/// Whether the words call the program `name`, by its name or by a path.
pub open spec fn calls_program(tokens: Seq<Seq<char>>, name: Seq<char>, in_directory: Seq<char>) -> bool {
    tokens.len() > 0 && (tokens[0] == name || text::has_suffix(tokens[0], in_directory))
}

/// Whether one of the words is `-R` or `--recursive`.
pub open spec fn has_recursive_option(tokens: Seq<Seq<char>>) -> bool {
    exists|j: int| 0 <= j < tokens.len() && (#[trigger] tokens[j] == "-R"@ || tokens[j] == "--recursive"@)
}

/// Whether a word is an option that holds an `r` or an `R`.
pub open spec fn is_recursive_option(word: Seq<char>) -> bool {
    text::begins_with(word, '-') && (word.contains('r') || word.contains('R'))
}

/// Whether `word` is a path that no recursive `rm` may touch: a critical path or
/// the home directory.
pub open spec fn is_precious_path(word: Seq<char>) -> bool {
    is_critical_path(word) || word == "~"@
}

/// A recursive `rm` of a critical path or of the home directory.
pub open spec fn rm_reason(cmd: Seq<char>) -> Option<Seq<char>> {
    let tokens = text::words(cmd);
    if calls_program(tokens, "rm"@, "/rm"@) && (exists|j: int|
        0 <= j < tokens.len() && is_recursive_option(#[trigger] tokens[j])) && (exists|j: int|
        1 <= j < tokens.len() && !text::begins_with(#[trigger] tokens[j], '-') && is_precious_path(tokens[j])) {
        Some("禁止操作：递归删除系统关键目录"@)
    } else {
        None
    }
}

/// A command that makes a file system.
pub open spec fn mkfs_reason(cmd: Seq<char>) -> Option<Seq<char>> {
    if text::has_infix(cmd, "mkfs."@) {
        Some("禁止操作：格式化磁盘命令 (mkfs)"@)
    } else if text::has_prefix(cmd, "mke2fs"@) || text::has_prefix(cmd, "newfs"@) {
        Some("禁止操作：创建文件系统命令"@)
    } else {
        None
    }
}

/// Whether an `of=` at position `i` is followed by a block device.
pub open spec fn outputs_to_device(cmd: Seq<char>, i: int) -> bool {
    text::occurs_at(cmd, "of="@, i) && text::has_prefix_of(text::first_word(cmd.skip(i + 3)), block_devices())
}

/// A `dd` that writes to a block device.
pub open spec fn dd_reason(cmd: Seq<char>) -> Option<Seq<char>> {
    if (text::has_prefix(cmd, "dd "@) || text::has_infix(cmd, " dd "@)) && (exists|i: int|
        #[trigger] outputs_to_device(cmd, i)) {
        Some("禁止操作：dd 写入到块设备"@)
    } else {
        None
    }
}

/// An output redirection to a block device, or a `cp` into `/dev`.
pub open spec fn redirect_reason(cmd: Seq<char>) -> Option<Seq<char>> {
    if exists|k: int|
        0 <= k < block_devices().len() && (text::has_infix(cmd, "> "@ + #[trigger] block_devices()[k]) || text::has_infix(
            cmd,
            ">"@ + block_devices()[k],
        )) {
        Some("禁止操作：输出重定向到块设备"@)
    } else if (text::has_prefix(cmd, "cp "@) || text::has_infix(cmd, " cp "@)) && text::has_infix(cmd, " /dev/"@) {
        Some("禁止操作：复制到 /dev 设备"@)
    } else {
        None
    }
}

/// The commands that stop the machine whatever their operands are.
pub open spec fn shutdown_commands() -> Seq<Seq<char>> {
    seq!["shutdown"@, "reboot"@, "halt"@, "poweroff"@, "init"@, "telinit"@]
}

/// The words that make a service manager stop the machine or a service.
pub open spec fn shutdown_verbs() -> Seq<Seq<char>> {
    seq!["shutdown"@, "reboot"@, "halt"@, "poweroff"@, "stop"@]
}

/// A word of a call of a service manager, given in lower case, that stops something.
pub open spec fn service_manager_reason(lower: Seq<char>) -> Option<Seq<char>> {
    if text::has_infix_of(lower, shutdown_verbs()) {
        Some("禁止操作：系统关机/重启/停止服务命令"@)
    } else {
        None
    }
}

/// Whether one of the words stops something when a service manager is called with
/// it.
pub open spec fn has_stopping_word(words: Seq<Seq<char>>) -> bool {
    exists|j: int| 0 <= j < words.len() && service_manager_reason(text::lower(#[trigger] words[j])) is Some
}

/// A command that stops the machine or a service.
pub open spec fn system_control_reason(cmd: Seq<char>) -> Option<Seq<char>> {
    let base = text::first_word(cmd);
    if base == "systemctl"@ || base == "launchctl"@ {
        if has_stopping_word(text::words(cmd)) {
            Some("禁止操作：系统关机/重启/停止服务命令"@)
        } else {
            None
        }
    } else if text::one_of(base, shutdown_commands()) {
        Some("禁止操作：系统关机/重启命令"@)
    } else {
        None
    }
}

/// Whether the function whose name stands from `k` to `i` begins with a pipe of
/// itself into itself, in the background.
pub open spec fn pipes_into_itself(s: Seq<char>, k: int, i: int) -> bool {
    &&& 0 <= k < i
    &&& text::occurs_at(s, "(){"@, i)
    &&& text::occurs_at(s, s.subrange(k, i) + "|"@ + s.subrange(k, i) + "&"@, i + 3)
}

/// A function that calls itself into a pipe.
pub open spec fn fork_bomb_reason(cmd: Seq<char>) -> Option<Seq<char>> {
    let dense = text::replaced(cmd, " "@, ""@);
    if text::has_infix(cmd, ":(){"@) || text::has_infix(cmd, ":|:&"@) || text::has_infix(dense, "(){(|"@) || text::has_infix(
        dense,
        "(){:|"@,
    ) || exists|k: int, i: int| pipes_into_itself(dense, k, i) {
        Some("禁止操作：检测到 fork bomb 模式"@)
    } else {
        None
    }
}

/// Whether `word` is read as a file mode and not as a path.
pub open spec fn is_mode_operand(word: Seq<char>) -> bool {
    ||| (forall|i: int| 0 <= i < word.len() ==> '0' <= #[trigger] word[i] <= '9')
    ||| text::begins_with(word, 'u')
    ||| text::begins_with(word, 'g')
    ||| text::begins_with(word, 'o')
    ||| text::begins_with(word, 'a')
}

/// A recursive `chmod` of a critical path.
pub open spec fn chmod_reason(cmd: Seq<char>) -> Option<Seq<char>> {
    let tokens = text::words(cmd);
    if calls_program(tokens, "chmod"@, "/chmod"@) && has_recursive_option(tokens) && (exists|j: int|
        1 <= j < tokens.len() && !text::begins_with(#[trigger] tokens[j], '-') && !is_mode_operand(tokens[j])
            && is_critical_path(tokens[j])) {
        Some("禁止操作：递归修改系统关键目录权限"@)
    } else {
        None
    }
}

/// A recursive `chown` of a critical path.
pub open spec fn chown_reason(cmd: Seq<char>) -> Option<Seq<char>> {
    let tokens = text::words(cmd);
    if calls_program(tokens, "chown"@, "/chown"@) && has_recursive_option(tokens) && (exists|j: int|
        1 <= j < tokens.len() && !text::begins_with(#[trigger] tokens[j], '-') && !tokens[j].contains(':')
            && is_critical_path(tokens[j])) {
        Some("禁止操作：递归修改系统关键目录所有者"@)
    } else {
        None
    }
}

/// The programs that fetch something from the network.
pub open spec fn downloaders() -> Seq<Seq<char>> {
    seq!["curl "@, "wget "@, "aria2c "@]
}

/// A pipe into an interpreter.
pub open spec fn interpreter_pipes() -> Seq<Seq<char>> {
    seq![
        "| sh"@, "| bash"@, "| zsh"@, "| /bin/sh"@, "| /bin/bash"@, "| python"@, "| perl"@,
        "| ruby"@,
    ]
}

/// A text, given in lower case, that speaks of a download and of a pipe into an
/// interpreter.
pub open spec fn piped_download_reason(lower: Seq<char>) -> Option<Seq<char>> {
    if text::has_infix_of(lower, downloaders()) && text::has_infix_of(lower, interpreter_pipes()) {
        Some("禁止操作：下载内容直接管道传递给解释器执行，存在安全风险"@)
    } else {
        None
    }
}

/// A text that speaks of a download and of a pipe into an interpreter.
pub open spec fn pipe_to_shell_reason(cmd: Seq<char>) -> Option<Seq<char>> {
    piped_download_reason(text::lower(cmd))
}

/// The names of the programs that fetch something from the network.
pub open spec fn downloader_names() -> Seq<Seq<char>> {
    seq!["curl"@, "wget"@, "aria2c"@]
}

/// The names of the programs that run what they read.
pub open spec fn interpreter_names() -> Seq<Seq<char>> {
    seq!["sh"@, "bash"@, "zsh"@, "python"@, "perl"@, "ruby"@]
}

/// Whether a text is a version, or empty.
pub open spec fn is_version(s: Seq<char>) -> bool {
    forall|i: int| 0 <= i < s.len() ==> '0' <= #[trigger] s[i] <= '9' || s[i] == '.'
}

/// The last component of a path.
pub open spec fn base_name(path: Seq<char>) -> Seq<char> {
    text::split_any(path, seq!['/']).last()
}

/// Whether a word, given in lower case, names an interpreter, with or without a
/// directory before the name and a version behind it.
pub open spec fn names_interpreter(lower: Seq<char>) -> bool {
    exists|k: int|
        0 <= k < interpreter_names().len() && text::has_prefix(
            base_name(lower),
            #[trigger] interpreter_names()[k],
        ) && is_version(base_name(lower).skip(interpreter_names()[k].len() as int))
}

/// Whether a word, given in lower case, names a downloader.
pub open spec fn names_downloader(lower: Seq<char>) -> bool {
    exists|k: int| 0 <= k < downloader_names().len() && text::has_suffix(lower, #[trigger] downloader_names()[k])
}

/// Whether a simple command fetches something: one of its words names a downloader.
pub open spec fn fetches(command: Seq<char>) -> bool {
    exists|j: int|
        0 <= j < text::words(command).len() && names_downloader(text::lower(#[trigger] text::words(command)[j]))
}

/// Whether a simple command runs what it reads: its first word names an interpreter.
pub open spec fn interprets(command: Seq<char>) -> bool {
    names_interpreter(text::lower(text::first_word(command)))
}

/// Whether of the simple commands of a pipeline number `i` fetches something and
/// number `j`, which comes later, runs what it reads.
pub open spec fn feeds_interpreter(commands: Seq<Seq<char>>, i: int, j: int) -> bool {
    0 <= i < j < commands.len() && fetches(commands[i]) && interprets(commands[j])
}

/// A pipeline in which a download goes into an interpreter.
pub open spec fn download_reason(pipeline: Seq<char>) -> Option<Seq<char>> {
    if exists|i: int, j: int| feeds_interpreter(text::split_any(pipeline, command_separators()), i, j) {
        Some("禁止操作：下载内容直接管道传递给解释器执行，存在安全风险"@)
    } else {
        None
    }
}

/// Whether `word` names a protected branch, alone or behind a remote.
pub open spec fn is_protected_branch(word: Seq<char>) -> bool {
    ||| text::one_of(word, protected_branches())
    ||| exists|k: int|
        0 <= k < protected_branches().len() && text::has_suffix(word, "/"@ + #[trigger] protected_branches()[k])
}

/// A forced push to a protected branch.
pub open spec fn git_reason(cmd: Seq<char>) -> Option<Seq<char>> {
    let tokens = text::words(cmd);
    if tokens.len() >= 4 && calls_program(tokens, "git"@, "/git"@) && tokens[1] == "push"@ && (exists|j: int|
        0 <= j < tokens.len() && (#[trigger] tokens[j] == "--force"@ || tokens[j] == "-f"@ || tokens[j]
            == "--force-with-lease"@)) && (exists|j: int|
        2 <= j < tokens.len() && is_protected_branch(#[trigger] tokens[j])) {
        Some("禁止操作：强制推送到受保护分支"@)
    } else {
        None
    }
}

/// The command without the operators that are written with two characters: `&&`
/// and `||` end a line, a redirection of one output into the other is blanked out,
/// and a redirection of both outputs is written as one of the output, apart from what
/// stands before it.
pub open spec fn plain_operators(cmd: Seq<char>) -> Seq<char> {
    let ands = text::replaced(cmd, "&&"@, "\n"@);
    let ors = text::replaced(ands, "||"@, "\n"@);
    let errors = text::replaced(ors, "2>&1"@, " "@);
    let outputs = text::replaced(errors, "1>&2"@, " "@);
    let appends = text::replaced(outputs, "&>>"@, " >>"@);
    let both = text::replaced(appends, "&>"@, " >"@);
    text::replaced(both, ">&"@, ">"@)
}

/// The characters between two statements.
pub open spec fn statement_separators() -> Seq<char> {
    seq![';', '\n']
}

/// The character between two pipelines of a statement.
pub open spec fn pipeline_separators() -> Seq<char> {
    seq!['&']
}

/// The character between two simple commands of a pipeline.
pub open spec fn command_separators() -> Seq<char> {
    seq!['|']
}

/// Why a simple command is refused, by the first rule that it breaks.
pub open spec fn simple_command_reason(cmd: Seq<char>) -> Option<Seq<char>> {
    if cmd.len() == 0 {
        None
    } else if rm_reason(cmd) is Some {
        rm_reason(cmd)
    } else if mkfs_reason(cmd) is Some {
        mkfs_reason(cmd)
    } else if dd_reason(cmd) is Some {
        dd_reason(cmd)
    } else if redirect_reason(cmd) is Some {
        redirect_reason(cmd)
    } else if system_control_reason(cmd) is Some {
        system_control_reason(cmd)
    } else if fork_bomb_reason(cmd) is Some {
        fork_bomb_reason(cmd)
    } else if chmod_reason(cmd) is Some {
        chmod_reason(cmd)
    } else if chown_reason(cmd) is Some {
        chown_reason(cmd)
    } else {
        git_reason(cmd)
    }
}

/// The first of two reasons.
pub open spec fn first_of(a: Option<Seq<char>>, b: Option<Seq<char>>) -> Option<Seq<char>> {
    if a is Some {
        a
    } else {
        b
    }
}

/// Why the first of the parts that is refused is refused. `reason` tells why a
/// part is.
pub open spec fn first_reason(
    parts: Seq<Seq<char>>,
    reason: spec_fn(Seq<char>) -> Option<Seq<char>>,
) -> Option<Seq<char>>
    decreases parts.len(),
{
    if parts.len() == 0 {
        None
    } else {
        first_of(reason(parts[0]), first_reason(parts.drop_first(), reason))
    }
}

/// Why one of the simple commands of a pipeline is refused.
pub open spec fn commands_reason(pipeline: Seq<char>) -> Option<Seq<char>> {
    first_reason(text::split_any(pipeline, command_separators()), of_command())
}

/// Why a simple command, with white space around it, is refused.
pub open spec fn of_command() -> spec_fn(Seq<char>) -> Option<Seq<char>> {
    |command: Seq<char>| simple_command_reason(text::trim(command))
}

/// Why a pipeline is refused: because of one of its simple commands, or, if they
/// are all allowed, because of what it makes of them.
pub open spec fn pipeline_reason(pipeline: Seq<char>) -> Option<Seq<char>> {
    first_of(commands_reason(pipeline), download_reason(text::trim(pipeline)))
}

/// Why a pipeline is refused.
pub open spec fn of_pipeline() -> spec_fn(Seq<char>) -> Option<Seq<char>> {
    |pipeline: Seq<char>| pipeline_reason(pipeline)
}

/// Why a statement is refused: because of one of its pipelines, or, if they are
/// all allowed, because it is a fork bomb.
pub open spec fn statement_reason(statement: Seq<char>) -> Option<Seq<char>> {
    first_of(
        first_reason(text::split_any(statement, pipeline_separators()), of_pipeline()),
        fork_bomb_reason(text::trim(statement)),
    )
}

/// Why a statement is refused.
pub open spec fn of_statement() -> spec_fn(Seq<char>) -> Option<Seq<char>> {
    |statement: Seq<char>| statement_reason(statement)
}

/// Why a command line is refused: because of the first of its statements that is.
pub open spec fn danger(command: Seq<char>) -> Option<Seq<char>> {
    first_reason(
        text::split_any(plain_operators(text::trim(command)), statement_separators()),
        of_statement(),
    )
}

// ---------------------------------------------------------------------------
// The checks
// ---------------------------------------------------------------------------

/// What an optional text says.
pub open spec fn said(r: Option<&'static str>) -> Option<Seq<char>> {
    match r {
        Some(s) => Some(s@),
        None => None,
    }
}

fn critical_path_list() -> (r: Vec<&'static str>)
    ensures
        text::texts(r@) == critical_paths(),
{
    let r = vec![
        "/", "/*", "/.", "/..", "~/", "~/*", "/bin", "/boot", "/dev", "/etc", "/home", "/lib",
        "/lib64", "/opt", "/proc", "/root", "/sbin", "/srv", "/sys", "/usr", "/var", "/System",
    ];
    assert(text::texts(r@) =~= critical_paths());
    r
}

fn block_device_list() -> (r: Vec<&'static str>)
    ensures
        text::texts(r@) == block_devices(),
{
    let r = vec![
        "/dev/sd", "/dev/nvme", "/dev/mmcblk", "/dev/hd", "/dev/xvd", "/dev/vd", "/dev/disk",
        "/dev/rdisk",
    ];
    assert(text::texts(r@) =~= block_devices());
    r
}

/// Whether `word` is a critical path.
fn critical_path(word: &Vec<char>) -> (r: bool)
    ensures
        r == is_critical_path(word@),
{
    let list = critical_path_list();
    let mut k: usize = 0;
    while k < list.len()
        invariant
            k <= list.len(),
            text::texts(list@) == critical_paths(),
            forall|j: int|
                0 <= j < k ==> !(word@ == #[trigger] critical_paths()[j] || (text::has_prefix(word@, critical_paths()[j])
                    && text::has_suffix(critical_paths()[j], "/"@))),
        decreases list.len() - k,
    {
        let path = text::chars_of(list[k]);
        assert(path@ == critical_paths()[k as int]) by {
            assert(text::texts(list@)[k as int] == list@[k as int]@);
        }
        if text::equals(word, list[k]) || (text::starts_with(word, list[k]) && text::ends_with(&path, "/")) {
            return true;
        }
        k = k + 1;
    }
    assert(text::texts(list@).len() == list@.len());
    false
}

/// The words of `cmd`.
fn tokens_of(cmd: &str) -> (r: Vec<Vec<char>>)
    ensures
        text::pieces(r@) == text::words(cmd@),
        r@.len() == text::words(cmd@).len(),
        forall|j: int| 0 <= j < r@.len() ==> (#[trigger] r@[j])@ == text::words(cmd@)[j],
{
    let cmd = text::chars_of(cmd);
    let r = text::split_whitespace(&cmd);
    assert forall|j: int| 0 <= j < r@.len() implies (#[trigger] r@[j])@ == text::pieces(r@)[j] by {}
    r
}

/// Whether the words call the program `name`.
fn program_is(tokens: &Vec<Vec<char>>, name: &str, in_directory: &str) -> (r: bool)
    ensures
        r == calls_program(text::pieces(tokens@), name@, in_directory@),
{
    if tokens.len() == 0 {
        return false;
    }
    assert(text::pieces(tokens@)[0] == tokens@[0]@);
    text::equals(&tokens[0], name) || text::ends_with(&tokens[0], in_directory)
}

/// Whether one of the words is `-R` or `--recursive`.
fn recursive_option(tokens: &Vec<Vec<char>>) -> (r: bool)
    ensures
        r == has_recursive_option(text::pieces(tokens@)),
{
    let mut j: usize = 0;
    while j < tokens.len()
        invariant
            j <= tokens.len(),
            forall|i: int|
                0 <= i < j ==> !(#[trigger] text::pieces(tokens@)[i] == "-R"@ || text::pieces(tokens@)[i]
                    == "--recursive"@),
        decreases tokens.len() - j,
    {
        assert(text::pieces(tokens@)[j as int] == tokens@[j as int]@);
        if text::equals(&tokens[j], "-R") || text::equals(&tokens[j], "--recursive") {
            return true;
        }
        j = j + 1;
    }
    false
}

/// Whether all characters of `word` are digits.
fn all_digits(word: &Vec<char>) -> (r: bool)
    ensures
        r == (forall|i: int| 0 <= i < word@.len() ==> '0' <= #[trigger] word@[i] <= '9'),
{
    let mut i: usize = 0;
    while i < word.len()
        invariant
            i <= word.len(),
            forall|j: int| 0 <= j < i ==> '0' <= #[trigger] word@[j] <= '9',
        decreases word.len() - i,
    {
        if !('0' <= word[i] && word[i] <= '9') {
            return false;
        }
        i = i + 1;
    }
    true
}

/// Whether `word` names a protected branch.
fn protected_branch(word: &Vec<char>) -> (r: bool)
    ensures
        r == is_protected_branch(word@),
{
    let list = vec!["main", "master", "production", "prod", "release"];
    assert(text::texts(list@) =~= protected_branches());
    if text::equals_one_of(word, &list) {
        return true;
    }
    let mut k: usize = 0;
    while k < list.len()
        invariant
            k <= list.len(),
            text::texts(list@) == protected_branches(),
            forall|j: int| 0 <= j < k ==> !text::has_suffix(word@, "/"@ + #[trigger] protected_branches()[j]),
        decreases list.len() - k,
    {
        let suffix = String::from_str("/").concat(list[k]);
        assert(text::texts(list@)[k as int] == list@[k as int]@);
        if text::ends_with(word, suffix.as_str()) {
            assert(text::has_suffix(word@, "/"@ + protected_branches()[k as int]));
            return true;
        }
        k = k + 1;
    }
    assert(text::texts(list@).len() == list@.len());
    false
}

/// Whether a word, given in lower case, names a downloader.
fn downloader(lower: &Vec<char>) -> (r: bool)
    ensures
        r == names_downloader(lower@),
{
    let list = vec!["curl", "wget", "aria2c"];
    assert(text::texts(list@) =~= downloader_names());
    let mut k: usize = 0;
    while k < list.len()
        invariant
            k <= list.len(),
            text::texts(list@) == downloader_names(),
            forall|j: int| 0 <= j < k ==> !text::has_suffix(lower@, #[trigger] downloader_names()[j]),
        decreases list.len() - k,
    {
        assert(text::texts(list@)[k as int] == list@[k as int]@);
        if text::ends_with(lower, list[k]) {
            return true;
        }
        k = k + 1;
    }
    assert(text::texts(list@).len() == list@.len());
    false
}

/// Whether `s` is a version, or empty.
fn version(s: &Vec<char>) -> (r: bool)
    ensures
        r == is_version(s@),
{
    let mut i: usize = 0;
    while i < s.len()
        invariant
            i <= s.len(),
            forall|j: int| 0 <= j < i ==> '0' <= #[trigger] s@[j] <= '9' || s@[j] == '.',
        decreases s.len() - i,
    {
        if !('0' <= s[i] && s[i] <= '9') && s[i] != '.' {
            return false;
        }
        i = i + 1;
    }
    true
}

/// Whether a word, given in lower case, names an interpreter.
fn interpreter(lower: &Vec<char>) -> (r: bool)
    ensures
        r == names_interpreter(lower@),
{
    let separators = vec!['/'];
    assert(separators@ =~= seq!['/']);
    let components = text::split_at_any(lower, &separators);
    proof {
        text::lemma_split_is_not_empty(lower@, |c: char| separators@.contains(c));
        assert(text::pieces(components@).last() == components@.last()@);
    }
    let base = &components[components.len() - 1];
    let list = vec!["sh", "bash", "zsh", "python", "perl", "ruby"];
    assert(text::texts(list@) =~= interpreter_names());
    let mut k: usize = 0;
    while k < list.len()
        invariant
            k <= list.len(),
            base@ == base_name(lower@),
            text::texts(list@) == interpreter_names(),
            forall|j: int|
                0 <= j < k ==> !(text::has_prefix(base@, #[trigger] interpreter_names()[j]) && is_version(
                    base@.skip(interpreter_names()[j].len() as int),
                )),
        decreases list.len() - k,
    {
        assert(text::texts(list@)[k as int] == list@[k as int]@);
        if text::starts_with(base, list[k]) {
            let name = text::chars_of(list[k]);
            let rest = text::slice(base, name.len(), base.len());
            assert(rest@ =~= base@.skip(interpreter_names()[k as int].len() as int));
            if version(&rest) {
                return true;
            }
        }
        k = k + 1;
    }
    assert(text::texts(list@).len() == list@.len());
    false
}

/// Whether a simple command fetches something.
fn downloads(command: &Vec<char>) -> (r: bool)
    ensures
        r == fetches(command@),
{
    let tokens = text::split_whitespace(command);
    let ghost ws = text::words(command@);
    let mut j: usize = 0;
    while j < tokens.len()
        invariant
            j <= tokens.len(),
            ws == text::words(command@),
            ws == text::pieces(tokens@),
            forall|i: int| 0 <= i < j ==> !names_downloader(text::lower(#[trigger] ws[i])),
        decreases tokens.len() - j,
    {
        assert(ws[j as int] == tokens@[j as int]@);
        let word = text::string_of(&tokens[j]);
        let lower = text::to_lowercase(word.as_str());
        if downloader(&text::chars_of(lower.as_str())) {
            return true;
        }
        j = j + 1;
    }
    false
}

/// Whether a simple command runs what it reads.
fn runs_input(command: &Vec<char>) -> (r: bool)
    ensures
        r == interprets(command@),
{
    let word = text::string_of(&text::leading_word(command));
    let lower = text::to_lowercase(word.as_str());
    interpreter(&text::chars_of(lower.as_str()))
}

/// Whether a function begins with a pipe of itself into itself.
fn self_pipe(s: &Vec<char>) -> (r: bool)
    ensures
        r == exists|k: int, i: int| pipes_into_itself(s@, k, i),
{
    let head = text::chars_of("(){");
    proof {
        reveal_strlit("(){");
    }
    let mut i: usize = 0;
    while i < s.len()
        invariant
            i <= s.len(),
            head@ == "(){"@,
            "(){"@.len() == 3,
            forall|k: int, j: int| j < i ==> !#[trigger] pipes_into_itself(s@, k, j),
        decreases s.len() - i,
    {
        if text::match_at(s, &head, i) {
            let mut k: usize = 0;
            while k < i
                invariant
                    k <= i < s.len(),
                    i + 3 <= s.len(),
                    head@ == "(){"@,
                    text::occurs_at(s@, "(){"@, i as int),
                    forall|j: int| j < k ==> !#[trigger] pipes_into_itself(s@, j, i as int),
                decreases i - k,
            {
                let name = text::string_of(&text::slice(s, k, i));
                let pipe = name.clone().concat("|").concat(name.as_str()).concat("&");
                if text::match_at(s, &text::chars_of(pipe.as_str()), i + 3) {
                    assert(pipes_into_itself(s@, k as int, i as int));
                    return true;
                }
                k = k + 1;
            }
        }
        i = i + 1;
    }
    assert forall|k: int, j: int| !#[trigger] pipes_into_itself(s@, k, j) by {
        reveal_strlit("(){");
    }
    false
}

/// Executes shell commands, but for those that it refuses.
#[derive(Debug)]
pub struct BashTool {
    timeout_secs: u64,
}

impl View for BashTool {
    type V = u64;

    /// The seconds that a command may take.
    closed spec fn view(&self) -> u64 {
        self.timeout_secs
    }
}

impl Default for BashTool {
    fn default() -> (r: Self)
        ensures
            r@ == 120,
    {
        BashTool::new(120)
    }
}

impl Tool for BashTool {
    open spec fn tool_name(&self) -> Seq<char> {
        "bash"@
    }

    open spec fn tool_description(&self) -> Seq<char> {
        "Execute a bash command in the shell. Returns stdout and stderr output. Use for file operations, running scripts, checking system state, etc. Commands are run with a timeout and will be killed if they exceed it."@
    }

    open spec fn tool_parameters(&self) -> JsonModel {
        crate::tool::schema::object_schema(
            Map::empty().insert(
                "command"@,
                crate::tool::schema::described_schema("string"@, "The bash command to execute"@),
            ),
            seq!["command"@],
        )
    }

    fn name(&self) -> (r: &str) {
        "bash"
    }

    fn description(&self) -> (r: &str) {
        "Execute a bash command in the shell. Returns stdout and stderr output. Use for file operations, running scripts, checking system state, etc. Commands are run with a timeout and will be killed if they exceed it."
    }

    fn parameters(&self) -> (r: Json) {
        let mut properties = no_fields();
        set_field(&mut properties, "command", schema::described("string", "The bash command to execute"));
        let required = vec!["command"];
        assert(text::texts(required@) =~= seq!["command"@]);
        schema::object(properties, &required)
    }
}

/// The command that is to be executed according to the tool's input, or why it is
/// not.
pub open spec fn requested(input: JsonModel) -> Result<Seq<char>, ToolOutputModel> {
    let command = match crate::json::string_field(input, "command"@) {
        Some(c) => c,
        None => Seq::empty(),
    };
    if command.len() == 0 {
        Err(crate::tool::output::output("Error: command parameter is required"@, true))
    } else {
        match danger(command) {
            Some(reason) => Err(refusal(command, reason)),
            None => Ok(command),
        }
    }
}

/// The refusal of a command.
pub open spec fn refusal(command: Seq<char>, reason: Seq<char>) -> ToolOutputModel {
    crate::tool::output::output("安全限制："@ + reason + "\n被拦截的命令: "@ + command, true)
}

/// How the attempt to execute a command ended.
#[derive(Debug)]
pub enum BashOutcome {
    /// There is no working directory.
    NoDirectory(String),
    /// It took too long.
    TimedOut,
    /// The shell could not be started.
    Failed(String),
    /// The shell has ended.
    Exited { stdout: Vec<u8>, stderr: Vec<u8>, success: bool },
}

/// How the attempt to execute a command ended.
pub enum BashOutcomeModel {
    NoDirectory(Seq<char>),
    TimedOut,
    Failed(Seq<char>),
    Exited { stdout: Seq<u8>, stderr: Seq<u8>, success: bool },
}

impl DeepView for BashOutcome {
    type V = BashOutcomeModel;

    open spec fn deep_view(&self) -> BashOutcomeModel {
        match *self {
            BashOutcome::NoDirectory(e) => BashOutcomeModel::NoDirectory(e@),
            BashOutcome::TimedOut => BashOutcomeModel::TimedOut,
            BashOutcome::Failed(e) => BashOutcomeModel::Failed(e@),
            BashOutcome::Exited { stdout, stderr, success } => BashOutcomeModel::Exited {
                stdout: stdout@,
                stderr: stderr@,
                success,
            },
        }
    }
}

/// What a command wrote, given as text: its output, then its errors under a
/// heading.
pub open spec fn written(stdout: Option<Seq<char>>, stderr: Option<Seq<char>>) -> Seq<char> {
    let output = match stdout {
        Some(t) => t,
        None => Seq::empty(),
    };
    let all = match stderr {
        Some(errors) => output + (if output.len() == 0 {
            Seq::empty()
        } else {
            "\n"@
        }) + "--- stderr ---\n"@ + errors,
        None => output,
    };
    if all.len() == 0 {
        "(无输出)"@
    } else {
        all
    }
}

/// The text of a stream that is not empty.
pub open spec fn stream_text(bytes: Seq<u8>) -> Option<Seq<char>> {
    if bytes.len() == 0 {
        None
    } else {
        Some(text::decoded(bytes))
    }
}

/// What the tool gives back.
pub open spec fn reported(timeout_secs: u64, o: BashOutcomeModel) -> ToolOutputModel {
    match o {
        BashOutcomeModel::NoDirectory(e) => crate::tool::output::output("无法获取当前工作目录: "@ + e, true),
        BashOutcomeModel::TimedOut => crate::tool::output::output(
            "命令超时 ("@ + text::seconds(timeout_secs as nat) + ")"@,
            true,
        ),
        BashOutcomeModel::Failed(e) => crate::tool::output::output("执行失败: "@ + e, true),
        BashOutcomeModel::Exited { stdout, stderr, success } => crate::tool::output::output(
            written(stream_text(stdout), stream_text(stderr)),
            !success,
        ),
    }
}

/// The text of a stream that is not empty.
fn read_stream(bytes: &Vec<u8>) -> (r: Option<String>)
    ensures
        r.deep_view() == stream_text(bytes@),
{
    if bytes.len() == 0 {
        None
    } else {
        Some(text::from_utf8_lossy(bytes))
    }
}

/// What a command wrote, given as text.
pub fn written_text(stdout: Option<String>, stderr: Option<String>) -> (r: String)
    ensures
        r@ == written(stdout.deep_view(), stderr.deep_view()),
{
    let mut result = match stdout {
        Some(t) => t,
        None => String::new(),
    };
    match stderr {
        Some(errors) => {
            let ghost output = result@;
            if !result.as_str().is_empty() {
                result.append("\n");
            }
            result.append("--- stderr ---\n");
            result.append(errors.as_str());
            assert(result@ =~= output + (if output.len() == 0 {
                Seq::empty()
            } else {
                "\n"@
            }) + "--- stderr ---\n"@ + errors@);
        },
        None => {},
    }
    if result.as_str().is_empty() {
        result = "(无输出)".to_owned();
    }
    result
}

impl BashTool {
    /// The tool, with the seconds that a command may take.
    pub fn new(timeout_secs: u64) -> (r: Self)
        ensures
            r@ == timeout_secs,
    {
        BashTool { timeout_secs }
    }

    /// The seconds that a command may take.
    pub fn timeout_secs(&self) -> (r: u64)
        ensures
            r == self@,
    {
        self.timeout_secs
    }

    /// The command that is to be executed, or why it is not.
    pub fn request(input: &Json) -> (r: Result<String, ToolOutput>)
        ensures
            match requested(input.model()) {
                Ok(command) => r is Ok && r->Ok_0@ == command,
                Err(e) => r is Err && r->Err_0.deep_view() == e,
            },
            r matches Ok(command) ==> crate::json::string_field(input.model(), "command"@) == Some(command@)
                && danger(command@) is None,
    {
        let command = match input.get_str("command") {
            Some(c) => c,
            None => "",
        };
        proof {
            reveal_strlit("");
            assert(""@ =~= Seq::<char>::empty());
        }
        if command.is_empty() {
            return Err(ToolOutput::error("Error: command parameter is required".to_owned()));
        }
        match Self::check_dangerous(command) {
            Some(reason) => {
                let mut content = "安全限制：".to_owned();
                content.append(reason);
                content.append("\n被拦截的命令: ");
                content.append(command);
                Err(ToolOutput::error(content))
            },
            None => Ok(command.to_owned()),
        }
    }

    /// What the tool gives back after the attempt to execute a command.
    pub fn report(&self, outcome: BashOutcome) -> (r: ToolOutput)
        ensures
            r.deep_view() == reported(self@, outcome.deep_view()),
            outcome matches BashOutcome::Exited { success, .. } ==> r.is_error == !success,
            outcome !is Exited ==> r.is_error,
            !r.needs_approval,
    {
        match outcome {
            BashOutcome::NoDirectory(e) => ToolOutput::error("无法获取当前工作目录: ".to_owned().concat(e.as_str())),
            BashOutcome::TimedOut => {
                let mut content = "命令超时 (".to_owned();
                content.append(text::seconds_of(self.timeout_secs).as_str());
                content.append(")");
                ToolOutput::error(content)
            },
            BashOutcome::Failed(e) => ToolOutput::error("执行失败: ".to_owned().concat(e.as_str())),
            BashOutcome::Exited { stdout, stderr, success } => ToolOutput::ok_with_status(
                written_text(read_stream(&stdout), read_stream(&stderr)),
                !success,
            ),
        }
    }

    /// Checks a command line. `Some` holds the reason for which it is refused.
    pub fn check_dangerous(command: &str) -> (r: Option<&'static str>)
        ensures
            said(r) == danger(command@),
    {
        let trimmed = text::trimmed_str(command);
        proof {
            reveal_strlit("&&");
            reveal_strlit("||");
            reveal_strlit("2>&1");
            reveal_strlit("1>&2");
            reveal_strlit("&>>");
            reveal_strlit("&>");
            reveal_strlit(">&");
        }
        let ands = text::replace(&trimmed, "&&", "\n");
        let ors = text::replace(&ands, "||", "\n");
        let errors = text::replace(&ors, "2>&1", " ");
        let outputs = text::replace(&errors, "1>&2", " ");
        let appends = text::replace(&outputs, "&>>", " >>");
        let both = text::replace(&appends, "&>", " >");
        let line = text::replace(&both, ">&", ">");

        let separators = vec![';', '\n'];
        assert(separators@ =~= statement_separators());
        let statements = text::split_at_any(&line, &separators);
        let ghost all = text::pieces(statements@);
        let mut i: usize = 0;
        assert(all.skip(0) =~= all);
        while i < statements.len()
            invariant
                i <= statements.len(),
                all == text::pieces(statements@),
                danger(command@) == first_reason(all, of_statement()),
                first_reason(all, of_statement()) == first_reason(all.skip(i as int), of_statement()),
            decreases statements.len() - i,
        {
            assert(all.skip(i as int)[0] == statements@[i as int]@);
            assert(all.skip(i as int).drop_first() =~= all.skip(i + 1));
            let reason = Self::check_statement(&statements[i]);
            if reason.is_some() {
                return reason;
            }
            i = i + 1;
        }
        None
    }

    /// Checks a statement: its pipelines, one after the other, and then all of it.
    fn check_statement(statement: &Vec<char>) -> (r: Option<&'static str>)
        ensures
            said(r) == statement_reason(statement@),
    {
        let separators = vec!['&'];
        assert(separators@ =~= pipeline_separators());
        let pipelines = text::split_at_any(statement, &separators);
        let ghost all = text::pieces(pipelines@);
        let mut i: usize = 0;
        assert(all.skip(0) =~= all);
        while i < pipelines.len()
            invariant
                i <= pipelines.len(),
                all == text::pieces(pipelines@),
                all == text::split_any(statement@, pipeline_separators()),
                first_reason(all, of_pipeline()) == first_reason(all.skip(i as int), of_pipeline()),
            decreases pipelines.len() - i,
        {
            assert(all.skip(i as int)[0] == pipelines@[i as int]@);
            assert(all.skip(i as int).drop_first() =~= all.skip(i + 1));
            let reason = Self::check_pipeline(&pipelines[i]);
            if reason.is_some() {
                return reason;
            }
            i = i + 1;
        }
        let whole = text::string_of(&text::trimmed(statement));
        Self::check_fork_bomb(whole.as_str())
    }

    /// Checks a pipeline: its simple commands, one after the other, and then all
    /// of it.
    fn check_pipeline(pipeline: &Vec<char>) -> (r: Option<&'static str>)
        ensures
            said(r) == pipeline_reason(pipeline@),
    {
        let separators = vec!['|'];
        assert(separators@ =~= command_separators());
        let commands = text::split_at_any(pipeline, &separators);
        let ghost all = text::pieces(commands@);
        let mut i: usize = 0;
        assert(all.skip(0) =~= all);
        while i < commands.len()
            invariant
                i <= commands.len(),
                all == text::pieces(commands@),
                all == text::split_any(pipeline@, command_separators()),
                first_reason(all, of_command()) == first_reason(all.skip(i as int), of_command()),
            decreases commands.len() - i,
        {
            let command = text::string_of(&text::trimmed(&commands[i]));
            assert(all.skip(i as int)[0] == commands@[i as int]@);
            assert(all.skip(i as int).drop_first() =~= all.skip(i + 1));
            let reason = Self::check_simple_command(command.as_str());
            if reason.is_some() {
                return reason;
            }
            i = i + 1;
        }
        Self::check_download(&text::trimmed(pipeline))
    }

    /// Checks one simple command against each rule.
    fn check_simple_command(cmd: &str) -> (r: Option<&'static str>)
        ensures
            said(r) == simple_command_reason(cmd@),
    {
        if cmd.is_empty() {
            return None;
        }
        let reason = Self::check_rm_dangerous(cmd);
        if reason.is_some() {
            return reason;
        }
        let reason = Self::check_mkfs(cmd);
        if reason.is_some() {
            return reason;
        }
        let reason = Self::check_dd_dangerous(cmd);
        if reason.is_some() {
            return reason;
        }
        let reason = Self::check_redirect_to_dev(cmd);
        if reason.is_some() {
            return reason;
        }
        let reason = Self::check_system_control(cmd);
        if reason.is_some() {
            return reason;
        }
        let reason = Self::check_fork_bomb(cmd);
        if reason.is_some() {
            return reason;
        }
        let reason = Self::check_chmod_dangerous(cmd);
        if reason.is_some() {
            return reason;
        }
        let reason = Self::check_chown_dangerous(cmd);
        if reason.is_some() {
            return reason;
        }
        Self::check_git_force_push(cmd)
    }

    /// Refuses a recursive `rm` of a critical path or of the home directory.
    pub fn check_rm_dangerous(cmd: &str) -> (r: Option<&'static str>)
        ensures
            said(r) == rm_reason(cmd@),
    {
        let tokens = tokens_of(cmd);
        let ghost ws = text::words(cmd@);
        if !program_is(&tokens, "rm", "/rm") {
            return None;
        }
        let mut recursive = false;
        let mut i: usize = 0;
        while i < tokens.len()
            invariant
                i <= tokens.len(),
                ws == text::words(cmd@),
                ws.len() == tokens@.len(),
                forall|j: int| 0 <= j < tokens@.len() ==> (#[trigger] tokens@[j])@ == ws[j],
                recursive == exists|j: int| 0 <= j < i && is_recursive_option(#[trigger] ws[j]),
            decreases tokens.len() - i,
        {
            let flag = text::starts_with_char(&tokens[i], '-') && (text::contains_char(&tokens[i], 'r')
                || text::contains_char(&tokens[i], 'R'));
            assert(tokens@[i as int]@ == ws[i as int]);
            recursive = recursive || flag;
            i = i + 1;
        }
        if !recursive {
            return None;
        }
        let mut i: usize = 1;
        while i < tokens.len()
            invariant
                1 <= i <= tokens.len(),
                ws.len() == tokens@.len(),
                ws == text::words(cmd@),
                forall|j: int| 0 <= j < tokens@.len() ==> (#[trigger] tokens@[j])@ == ws[j],
                calls_program(ws, "rm"@, "/rm"@),
                exists|j: int| 0 <= j < ws.len() && is_recursive_option(#[trigger] ws[j]),
                forall|j: int| 1 <= j < i ==> text::begins_with(#[trigger] ws[j], '-') || !is_precious_path(ws[j]),
            decreases tokens.len() - i,
        {
            assert(tokens@[i as int]@ == ws[i as int]);
            if !text::starts_with_char(&tokens[i], '-') && (critical_path(&tokens[i]) || text::equals(&tokens[i], "~")) {
                return Some("禁止操作：递归删除系统关键目录");
            }
            i = i + 1;
        }
        None
    }

    /// Refuses the commands that make a file system.
    pub fn check_mkfs(cmd: &str) -> (r: Option<&'static str>)
        ensures
            said(r) == mkfs_reason(cmd@),
    {
        let s = text::chars_of(cmd);
        if text::contains(&s, "mkfs.") {
            return Some("禁止操作：格式化磁盘命令 (mkfs)");
        }
        if text::starts_with(&s, "mke2fs") || text::starts_with(&s, "newfs") {
            return Some("禁止操作：创建文件系统命令");
        }
        None
    }

    /// Refuses a `dd` that writes to a block device.
    pub fn check_dd_dangerous(cmd: &str) -> (r: Option<&'static str>)
        ensures
            said(r) == dd_reason(cmd@),
    {
        let s = text::chars_of(cmd);
        if !text::starts_with(&s, "dd ") && !text::contains(&s, " dd ") {
            return None;
        }
        proof {
            reveal_strlit("of=");
        }
        let key = text::chars_of("of=");
        let devices = block_device_list();
        let mut i: usize = 0;
        while i < s.len()
            invariant
                i <= s.len(),
                s@ == cmd@,
                key@ == "of="@,
                key.len() == 3,
                text::texts(devices@) == block_devices(),
                text::has_prefix(cmd@, "dd "@) || text::has_infix(cmd@, " dd "@),
                forall|j: int| 0 <= j < i ==> !#[trigger] outputs_to_device(cmd@, j),
            decreases s.len() - i,
        {
            if text::match_at(&s, &key, i) {
                let operand = text::slice(&s, i + 3, s.len());
                assert(operand@ =~= cmd@.skip(i + 3));
                let path = text::leading_word(&operand);
                if text::starts_with_one_of(&path, &devices) {
                    assert(outputs_to_device(cmd@, i as int));
                    return Some("禁止操作：dd 写入到块设备");
                }
            }
            i = i + 1;
        }
        None
    }

    /// Refuses an output redirection to a block device.
    pub fn check_redirect_to_dev(cmd: &str) -> (r: Option<&'static str>)
        ensures
            said(r) == redirect_reason(cmd@),
    {
        let s = text::chars_of(cmd);
        let list = block_device_list();
        let mut k: usize = 0;
        while k < list.len()
            invariant
                k <= list.len(),
                s@ == cmd@,
                text::texts(list@) == block_devices(),
                forall|j: int|
                    0 <= j < k ==> !(text::has_infix(cmd@, "> "@ + #[trigger] block_devices()[j]) || text::has_infix(
                        cmd@,
                        ">"@ + block_devices()[j],
                    )),
            decreases list.len() - k,
        {
            let spaced = String::from_str("> ").concat(list[k]);
            let dense = String::from_str(">").concat(list[k]);
            assert(text::texts(list@)[k as int] == list@[k as int]@);
            assert(spaced@ == "> "@ + block_devices()[k as int]);
            if text::contains(&s, spaced.as_str()) || text::contains(&s, dense.as_str()) {
                return Some("禁止操作：输出重定向到块设备");
            }
            k = k + 1;
        }
        assert(text::texts(list@).len() == list@.len());
        if (text::starts_with(&s, "cp ") || text::contains(&s, " cp ")) && text::contains(&s, " /dev/") {
            return Some("禁止操作：复制到 /dev 设备");
        }
        None
    }

    /// Refuses a word of a call of a service manager, given in lower case, that stops
    /// the machine or a service.
    pub fn check_service_manager(lower: &str) -> (r: Option<&'static str>)
        ensures
            said(r) == service_manager_reason(lower@),
    {
        let s = text::chars_of(lower);
        let verbs = vec!["shutdown", "reboot", "halt", "poweroff", "stop"];
        assert(text::texts(verbs@) =~= shutdown_verbs());
        if text::contains_one_of(&s, &verbs) {
            return Some("禁止操作：系统关机/重启/停止服务命令");
        }
        None
    }

    /// Refuses the commands that stop the machine.
    pub fn check_system_control(cmd: &str) -> (r: Option<&'static str>)
        ensures
            said(r) == system_control_reason(cmd@),
    {
        let s = text::chars_of(cmd);
        let base = text::leading_word(&s);
        if text::equals(&base, "systemctl") || text::equals(&base, "launchctl") {
            let tokens = tokens_of(cmd);
            let ghost ws = text::words(cmd@);
            let mut i: usize = 0;
            while i < tokens.len()
                invariant
                    i <= tokens.len(),
                    ws == text::words(cmd@),
                    ws.len() == tokens@.len(),
                    forall|j: int| 0 <= j < tokens@.len() ==> (#[trigger] tokens@[j])@ == ws[j],
                    text::first_word(cmd@) == "systemctl"@ || text::first_word(cmd@) == "launchctl"@,
                    forall|j: int|
                        0 <= j < i ==> service_manager_reason(text::lower(#[trigger] ws[j])) is None,
                decreases tokens.len() - i,
            {
                assert(tokens@[i as int]@ == ws[i as int]);
                let word = text::string_of(&tokens[i]);
                let reason = Self::check_service_manager(text::to_lowercase(word.as_str()).as_str());
                if reason.is_some() {
                    assert(has_stopping_word(ws));
                    return reason;
                }
                i = i + 1;
            }
            return None;
        }
        let commands = vec!["shutdown", "reboot", "halt", "poweroff", "init", "telinit"];
        assert(text::texts(commands@) =~= shutdown_commands());
        if text::equals_one_of(&base, &commands) {
            return Some("禁止操作：系统关机/重启命令");
        }
        None
    }

    /// Refuses a function that calls itself into a pipe.
    pub fn check_fork_bomb(cmd: &str) -> (r: Option<&'static str>)
        ensures
            said(r) == fork_bomb_reason(cmd@),
    {
        let s = text::chars_of(cmd);
        if text::contains(&s, ":(){") || text::contains(&s, ":|:&") {
            return Some("禁止操作：检测到 fork bomb 模式");
        }
        proof {
            reveal_strlit(" ");
        }
        let dense = text::replace(&s, " ", "");
        if text::contains(&dense, "(){(|") || text::contains(&dense, "(){:|") || self_pipe(&dense) {
            return Some("禁止操作：检测到 fork bomb 模式");
        }
        None
    }

    /// Refuses a recursive `chmod` of a critical path.
    pub fn check_chmod_dangerous(cmd: &str) -> (r: Option<&'static str>)
        ensures
            said(r) == chmod_reason(cmd@),
    {
        let tokens = tokens_of(cmd);
        let ghost ws = text::words(cmd@);
        if !program_is(&tokens, "chmod", "/chmod") || !recursive_option(&tokens) {
            return None;
        }
        let mut i: usize = 1;
        while i < tokens.len()
            invariant
                1 <= i <= tokens.len(),
                ws.len() == tokens@.len(),
                ws == text::words(cmd@),
                forall|j: int| 0 <= j < tokens@.len() ==> (#[trigger] tokens@[j])@ == ws[j],
                calls_program(ws, "chmod"@, "/chmod"@),
                has_recursive_option(ws),
                forall|j: int|
                    1 <= j < i ==> text::begins_with(#[trigger] ws[j], '-') || is_mode_operand(ws[j])
                        || !is_critical_path(ws[j]),
            decreases tokens.len() - i,
        {
            assert(tokens@[i as int]@ == ws[i as int]);
            let word = &tokens[i];
            let skipped = text::starts_with_char(word, '-') || all_digits(word) || text::starts_with_char(word, 'u')
                || text::starts_with_char(word, 'g') || text::starts_with_char(word, 'o')
                || text::starts_with_char(word, 'a');
            if !skipped && critical_path(word) {
                return Some("禁止操作：递归修改系统关键目录权限");
            }
            i = i + 1;
        }
        None
    }

    /// Refuses a recursive `chown` of a critical path.
    pub fn check_chown_dangerous(cmd: &str) -> (r: Option<&'static str>)
        ensures
            said(r) == chown_reason(cmd@),
    {
        let tokens = tokens_of(cmd);
        let ghost ws = text::words(cmd@);
        if !program_is(&tokens, "chown", "/chown") || !recursive_option(&tokens) {
            return None;
        }
        let mut i: usize = 1;
        while i < tokens.len()
            invariant
                1 <= i <= tokens.len(),
                ws.len() == tokens@.len(),
                ws == text::words(cmd@),
                forall|j: int| 0 <= j < tokens@.len() ==> (#[trigger] tokens@[j])@ == ws[j],
                calls_program(ws, "chown"@, "/chown"@),
                has_recursive_option(ws),
                forall|j: int|
                    1 <= j < i ==> text::begins_with(#[trigger] ws[j], '-') || ws[j].contains(':')
                        || !is_critical_path(ws[j]),
            decreases tokens.len() - i,
        {
            assert(tokens@[i as int]@ == ws[i as int]);
            let word = &tokens[i];
            let skipped = text::starts_with_char(word, '-') || text::contains_char(word, ':');
            if !skipped && critical_path(word) {
                return Some("禁止操作：递归修改系统关键目录所有者");
            }
            i = i + 1;
        }
        None
    }

    /// Refuses a pipeline in which a download goes into an interpreter.
    fn check_download(pipeline: &Vec<char>) -> (r: Option<&'static str>)
        ensures
            said(r) == download_reason(pipeline@),
    {
        let separators = vec!['|'];
        assert(separators@ =~= command_separators());
        let commands = text::split_at_any(pipeline, &separators);
        let ghost all = text::pieces(commands@);
        let mut fetched = false;
        let mut j: usize = 0;
        while j < commands.len()
            invariant
                j <= commands.len(),
                all == text::pieces(commands@),
                all == text::split_any(pipeline@, command_separators()),
                fetched == exists|i: int| 0 <= i < j && fetches(#[trigger] all[i]),
                forall|i: int, k: int| k < j ==> !#[trigger] feeds_interpreter(all, i, k),
            decreases commands.len() - j,
        {
            assert(all[j as int] == commands@[j as int]@);
            if fetched && runs_input(&commands[j]) {
                proof {
                    let i = choose|i: int| 0 <= i < j && fetches(#[trigger] all[i]);
                    assert(feeds_interpreter(all, i, j as int));
                }
                return Some("禁止操作：下载内容直接管道传递给解释器执行，存在安全风险");
            }
            let more = downloads(&commands[j]);
            fetched = fetched || more;
            j = j + 1;
        }
        None
    }

    /// Refuses a text, given in lower case, that speaks of a download and of a pipe
    /// into an interpreter.
    pub fn check_piped_download(lower: &str) -> (r: Option<&'static str>)
        ensures
            said(r) == piped_download_reason(lower@),
    {
        let s = text::chars_of(lower);
        let sources = vec!["curl ", "wget ", "aria2c "];
        assert(text::texts(sources@) =~= downloaders());
        if !text::contains_one_of(&s, &sources) {
            return None;
        }
        let pipes = vec![
            "| sh", "| bash", "| zsh", "| /bin/sh", "| /bin/bash", "| python", "| perl", "| ruby",
        ];
        assert(text::texts(pipes@) =~= interpreter_pipes());
        if text::contains_one_of(&s, &pipes) {
            return Some("禁止操作：下载内容直接管道传递给解释器执行，存在安全风险");
        }
        None
    }

    /// Refuses a text that speaks of a download and of a pipe into an interpreter,
    /// whatever else it says.
    pub fn check_pipe_to_shell(cmd: &str) -> (r: Option<&'static str>)
        ensures
            said(r) == pipe_to_shell_reason(cmd@),
    {
        let lower = text::to_lowercase(cmd);
        Self::check_piped_download(lower.as_str())
    }

    /// Refuses a forced push to a protected branch.
    pub fn check_git_force_push(cmd: &str) -> (r: Option<&'static str>)
        ensures
            said(r) == git_reason(cmd@),
    {
        let tokens = tokens_of(cmd);
        let ghost ws = text::words(cmd@);
        if tokens.len() < 4 {
            return None;
        }
        assert(tokens@[1]@ == ws[1]);
        if !program_is(&tokens, "git", "/git") || !text::equals(&tokens[1], "push") {
            return None;
        }
        let mut forced = false;
        let mut i: usize = 0;
        while i < tokens.len()
            invariant
                i <= tokens.len(),
                ws == text::words(cmd@),
                ws.len() == tokens@.len(),
                forall|j: int| 0 <= j < tokens@.len() ==> (#[trigger] tokens@[j])@ == ws[j],
                forced == exists|j: int|
                    0 <= j < i && (#[trigger] ws[j] == "--force"@ || ws[j] == "-f"@ || ws[j] == "--force-with-lease"@),
            decreases tokens.len() - i,
        {
            let flag = text::equals(&tokens[i], "--force") || text::equals(&tokens[i], "-f") || text::equals(
                &tokens[i],
                "--force-with-lease",
            );
            assert(tokens@[i as int]@ == ws[i as int]);
            forced = forced || flag;
            i = i + 1;
        }
        if !forced {
            return None;
        }
        let mut i: usize = 2;
        while i < tokens.len()
            invariant
                2 <= i <= tokens.len(),
                ws.len() == tokens@.len(),
                ws.len() >= 4,
                ws == text::words(cmd@),
                forall|j: int| 0 <= j < tokens@.len() ==> (#[trigger] tokens@[j])@ == ws[j],
                calls_program(ws, "git"@, "/git"@),
                ws[1] == "push"@,
                exists|j: int|
                    0 <= j < ws.len() && (#[trigger] ws[j] == "--force"@ || ws[j] == "-f"@ || ws[j]
                        == "--force-with-lease"@),
                forall|j: int| 2 <= j < i ==> !is_protected_branch(#[trigger] ws[j]),
            decreases tokens.len() - i,
        {
            assert(tokens@[i as int]@ == ws[i as int]);
            if protected_branch(&tokens[i]) {
                return Some("禁止操作：强制推送到受保护分支");
            }
            i = i + 1;
        }
        None
    }
}

} // verus!
