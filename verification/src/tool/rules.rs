//! Which commands are refused, said of their words and characters.

use vstd::prelude::*;

verus! {

// ---------------------------------------------------------------------------
// Paths
// ---------------------------------------------------------------------------

/// Whether a word is an absolute path or one below the home directory.
pub open spec fn is_far(word: Seq<char>) -> bool {
    ||| word.len() >= 1 && word[0] == '/'
    ||| word.len() >= 2 && word[0] == '~' && word[1] == '/'
}

proof fn lemma_far_paths(k: int)
    requires
        0 <= k < crate::tool::bash::critical_paths().len(),
    ensures
        is_far(crate::tool::bash::critical_paths()[k]),
{
    reveal_strlit("/");
    reveal_strlit("/*");
    reveal_strlit("/.");
    reveal_strlit("/..");
    reveal_strlit("~/");
    reveal_strlit("~/*");
    reveal_strlit("/bin");
    reveal_strlit("/boot");
    reveal_strlit("/dev");
    reveal_strlit("/etc");
    reveal_strlit("/home");
    reveal_strlit("/lib");
    reveal_strlit("/lib64");
    reveal_strlit("/opt");
    reveal_strlit("/proc");
    reveal_strlit("/root");
    reveal_strlit("/sbin");
    reveal_strlit("/srv");
    reveal_strlit("/sys");
    reveal_strlit("/usr");
    reveal_strlit("/var");
    reveal_strlit("/System");
}

/// The critical paths are the absolute ones and those below the home directory.
pub proof fn lemma_critical_paths(word: Seq<char>)
    ensures
        crate::tool::bash::is_critical_path(word) <==> is_far(word),
{
    reveal_strlit("/");
    reveal_strlit("~/");
    let paths = crate::tool::bash::critical_paths();
    if crate::tool::bash::is_critical_path(word) {
        let k = choose|k: int|
            0 <= k < paths.len() && (word == #[trigger] paths[k] || (crate::text::has_prefix(word, paths[k])
                && crate::text::has_suffix(paths[k], "/"@)));
        lemma_far_paths(k);
        if word != paths[k] {
            let start = word.subrange(0, paths[k].len() as int);
            assert(start == paths[k]);
            assert(start[0] == word[0]);
            if paths[k].len() >= 2 {
                assert(start[1] == word[1]);
            }
        }
    }
    if is_far(word) {
        if word[0] == '/' {
            assert(word.subrange(0, 1) =~= "/"@);
            assert(crate::text::has_prefix(word, "/"@));
        } else {
            assert(word.subrange(0, 2) =~= "~/"@);
            assert(crate::text::has_prefix(word, "~/"@));
        }
        crate::tool::compound::lemma_absolute_paths_are_critical(word);
    }
}

/// Whether a text begins with the name of a block device.
pub open spec fn is_device(s: Seq<char>) -> bool {
    ||| crate::text::has_prefix(s, "/dev/sd"@)
    ||| crate::text::has_prefix(s, "/dev/nvme"@)
    ||| crate::text::has_prefix(s, "/dev/mmcblk"@)
    ||| crate::text::has_prefix(s, "/dev/hd"@)
    ||| crate::text::has_prefix(s, "/dev/xvd"@)
    ||| crate::text::has_prefix(s, "/dev/vd"@)
    ||| crate::text::has_prefix(s, "/dev/disk"@)
    ||| crate::text::has_prefix(s, "/dev/rdisk"@)
}

proof fn lemma_devices(s: Seq<char>)
    ensures
        crate::text::has_prefix_of(s, crate::tool::bash::block_devices()) <==> is_device(s),
{
    let list = crate::tool::bash::block_devices();
    assert(list[0] == "/dev/sd"@ && list[1] == "/dev/nvme"@ && list[2] == "/dev/mmcblk"@ && list[3] == "/dev/hd"@);
    assert(list[4] == "/dev/xvd"@ && list[5] == "/dev/vd"@ && list[6] == "/dev/disk"@ && list[7] == "/dev/rdisk"@);
}

// ---------------------------------------------------------------------------
// The rules
// ---------------------------------------------------------------------------

/// Whether the first of the words is a program, by its name or by a path to it.
pub open spec fn runs(words: Seq<Seq<char>>, name: Seq<char>, below: Seq<char>) -> bool {
    words.len() > 0 && (words[0] == name || crate::text::has_suffix(words[0], below))
}

/// Whether a word is an option.
pub open spec fn is_option(word: Seq<char>) -> bool {
    word.len() > 0 && word[0] == '-'
}

/// `rm` is refused if and only if it has an option with an `r`, small or capital, and an
/// operand that is absolute, below the home directory or the home directory itself.
pub proof fn lemma_rm_rule(cmd: Seq<char>)
    ensures
        ({
            let words = crate::text::words(cmd);
            crate::tool::bash::rm_reason(cmd) == if runs(words, "rm"@, "/rm"@) && (exists|j: int|
                0 <= j < words.len() && is_option(#[trigger] words[j]) && (words[j].contains('r') || words[j].contains(
                    'R',
                ))) && (exists|j: int|
                1 <= j < words.len() && !is_option(#[trigger] words[j]) && (is_far(words[j]) || words[j] == "~"@)) {
                Some("禁止操作：递归删除系统关键目录"@)
            } else {
                None
            }
        }),
{
    let words = crate::text::words(cmd);
    assert forall|j: int| 0 <= j < words.len() implies (#[trigger] crate::tool::bash::is_recursive_option(words[j])
        <==> is_option(words[j]) && (words[j].contains('r') || words[j].contains('R'))) by {}
    assert forall|j: int| 0 <= j < words.len() implies (crate::tool::bash::is_precious_path(#[trigger] words[j])
        <==> is_far(words[j]) || words[j] == "~"@) by {
        lemma_critical_paths(words[j]);
    }
    if exists|j: int|
        0 <= j < words.len() && is_option(#[trigger] words[j]) && (words[j].contains('r') || words[j].contains('R')) {
        let j = choose|j: int|
            0 <= j < words.len() && is_option(#[trigger] words[j]) && (words[j].contains('r') || words[j].contains(
                'R',
            ));
        assert(crate::tool::bash::is_recursive_option(words[j]));
    }
}

/// `chmod -R` is refused if and only if one of its operands that is no mode is absolute or
/// below the home directory.
pub proof fn lemma_chmod_rule(cmd: Seq<char>)
    ensures
        ({
            let words = crate::text::words(cmd);
            crate::tool::bash::chmod_reason(cmd) == if runs(words, "chmod"@, "/chmod"@) && (exists|j: int|
                0 <= j < words.len() && (#[trigger] words[j] == "-R"@ || words[j] == "--recursive"@)) && (exists|j: int|
                1 <= j < words.len() && is_far(#[trigger] words[j])) {
                Some("禁止操作：递归修改系统关键目录权限"@)
            } else {
                None
            }
        }),
{
    let words = crate::text::words(cmd);
    assert forall|j: int| 0 <= j < words.len() implies (is_far(#[trigger] words[j]) <==> !crate::text::begins_with(
        words[j],
        '-',
    ) && !crate::tool::bash::is_mode_operand(words[j]) && crate::tool::bash::is_critical_path(words[j])) by {
        lemma_critical_paths(words[j]);
        if is_far(words[j]) {
            assert(!('0' <= words[j][0] <= '9'));
        }
    }
}

/// `chown -R` is refused if and only if one of its operands that names no owner is absolute
/// or below the home directory.
pub proof fn lemma_chown_rule(cmd: Seq<char>)
    ensures
        ({
            let words = crate::text::words(cmd);
            crate::tool::bash::chown_reason(cmd) == if runs(words, "chown"@, "/chown"@) && (exists|j: int|
                0 <= j < words.len() && (#[trigger] words[j] == "-R"@ || words[j] == "--recursive"@)) && (exists|j: int|
                1 <= j < words.len() && is_far(#[trigger] words[j]) && !words[j].contains(':')) {
                Some("禁止操作：递归修改系统关键目录所有者"@)
            } else {
                None
            }
        }),
{
    let words = crate::text::words(cmd);
    assert forall|j: int| 0 <= j < words.len() implies (is_far(#[trigger] words[j]) <==> !crate::text::begins_with(
        words[j],
        '-',
    ) && crate::tool::bash::is_critical_path(words[j])) by {
        lemma_critical_paths(words[j]);
    }
}

/// Whether a word is one of the protected branches.
pub open spec fn is_main_branch(word: Seq<char>) -> bool {
    ||| word == "main"@
    ||| word == "master"@
    ||| word == "production"@
    ||| word == "prod"@
    ||| word == "release"@
}

/// Whether a word ends with a slash and one of the protected branches.
pub open spec fn is_main_branch_of_a_remote(word: Seq<char>) -> bool {
    ||| crate::text::has_suffix(word, "/"@ + "main"@)
    ||| crate::text::has_suffix(word, "/"@ + "master"@)
    ||| crate::text::has_suffix(word, "/"@ + "production"@)
    ||| crate::text::has_suffix(word, "/"@ + "prod"@)
    ||| crate::text::has_suffix(word, "/"@ + "release"@)
}

/// `git push` is refused if and only if it has at least four words, one of which forces the
/// push and another names a protected branch, alone or behind a remote.
pub proof fn lemma_git_rule(cmd: Seq<char>)
    ensures
        ({
            let words = crate::text::words(cmd);
            crate::tool::bash::git_reason(cmd) == if words.len() >= 4 && runs(words, "git"@, "/git"@) && words[1]
                == "push"@ && (exists|j: int|
                0 <= j < words.len() && (#[trigger] words[j] == "--force"@ || words[j] == "-f"@ || words[j]
                    == "--force-with-lease"@)) && (exists|j: int|
                2 <= j < words.len() && (is_main_branch(#[trigger] words[j]) || is_main_branch_of_a_remote(words[j]))) {
                Some("禁止操作：强制推送到受保护分支"@)
            } else {
                None
            }
        }),
{
    let words = crate::text::words(cmd);
    let list = crate::tool::bash::protected_branches();
    assert(list[0] == "main"@ && list[1] == "master"@ && list[2] == "production"@ && list[3] == "prod"@);
    assert(list[4] == "release"@);
    assert forall|j: int| 0 <= j < words.len() implies (crate::tool::bash::is_protected_branch(#[trigger] words[j])
        <==> is_main_branch(words[j]) || is_main_branch_of_a_remote(words[j])) by {}
}

/// A command is refused for making a file system if and only if `mkfs.` occurs in it, or it
/// begins with `mke2fs` or `newfs`.
pub proof fn lemma_mkfs_rule(cmd: Seq<char>)
    ensures
        crate::text::has_infix(cmd, "mkfs."@) ==> crate::tool::bash::mkfs_reason(cmd) == Some(
            "禁止操作：格式化磁盘命令 (mkfs)"@,
        ),
        !crate::text::has_infix(cmd, "mkfs."@) && (crate::text::has_prefix(cmd, "mke2fs"@) || crate::text::has_prefix(
            cmd,
            "newfs"@,
        )) ==> crate::tool::bash::mkfs_reason(cmd) == Some("禁止操作：创建文件系统命令"@),
        !crate::text::has_infix(cmd, "mkfs."@) && !crate::text::has_prefix(cmd, "mke2fs"@) && !crate::text::has_prefix(
            cmd,
            "newfs"@,
        ) ==> crate::tool::bash::mkfs_reason(cmd) is None,
{
}

/// `dd` is refused if and only if an `of=` in it is followed by the name of a block device.
pub proof fn lemma_dd_rule(cmd: Seq<char>)
    ensures
        crate::tool::bash::dd_reason(cmd) == if (crate::text::has_prefix(cmd, "dd "@) || crate::text::has_infix(
            cmd,
            " dd "@,
        )) && (exists|i: int|
            #[trigger] crate::text::occurs_at(cmd, "of="@, i) && is_device(crate::text::first_word(cmd.skip(i + 3)))) {
            Some("禁止操作：dd 写入到块设备"@)
        } else {
            None
        },
{
    assert forall|i: int| #[trigger] crate::tool::bash::outputs_to_device(cmd, i) <==> crate::text::occurs_at(
        cmd,
        "of="@,
        i,
    ) && is_device(crate::text::first_word(cmd.skip(i + 3))) by {
        lemma_devices(crate::text::first_word(cmd.skip(i + 3)));
    }
    if exists|i: int|
        #[trigger] crate::text::occurs_at(cmd, "of="@, i) && is_device(crate::text::first_word(cmd.skip(i + 3))) {
        let i = choose|i: int|
            #[trigger] crate::text::occurs_at(cmd, "of="@, i) && is_device(crate::text::first_word(cmd.skip(i + 3)));
        assert(crate::tool::bash::outputs_to_device(cmd, i));
    }
}

/// Whether the character at `i` redirects the output to a block device.
pub open spec fn redirects_to_device(cmd: Seq<char>, i: int) -> bool {
    &&& 0 <= i < cmd.len()
    &&& cmd[i] == '>'
    &&& is_device(cmd.skip(i + 1)) || (i + 1 < cmd.len() && cmd[i + 1] == ' ' && is_device(cmd.skip(i + 2)))
}

proof fn lemma_occurs_behind(cmd: Seq<char>, a: Seq<char>, b: Seq<char>, i: int)
    requires
        0 <= i <= cmd.len(),
    ensures
        crate::text::occurs_at(cmd, a + b, i) <==> crate::text::occurs_at(cmd, a, i) && crate::text::has_prefix(
            cmd.skip(i + a.len()),
            b,
        ),
{
    if crate::text::occurs_at(cmd, a + b, i) {
        let all = cmd.subrange(i, i + (a + b).len());
        assert(cmd.subrange(i, i + a.len()) =~= all.subrange(0, a.len() as int));
        assert(all.subrange(0, a.len() as int) =~= a);
        assert(cmd.skip(i + a.len()).subrange(0, b.len() as int) =~= all.subrange(
            a.len() as int,
            (a.len() + b.len()) as int,
        ));
        assert(all.subrange(a.len() as int, (a.len() + b.len()) as int) =~= b);
    }
    if crate::text::occurs_at(cmd, a, i) && crate::text::has_prefix(cmd.skip(i + a.len()), b) {
        assert(cmd.subrange(i, i + (a + b).len()) =~= cmd.subrange(i, i + a.len()) + cmd.skip(i + a.len()).subrange(
            0,
            b.len() as int,
        ));
    }
}

/// A command is refused for its redirection if and only if a `>` in it is followed, at once
/// or behind a space, by the name of a block device; and `cp` if and only if it speaks of a
/// file below `/dev`.
pub proof fn lemma_redirection_rule(cmd: Seq<char>)
    ensures
        crate::tool::bash::redirect_reason(cmd) == if exists|i: int| redirects_to_device(cmd, i) {
            Some("禁止操作：输出重定向到块设备"@)
        } else if (crate::text::has_prefix(cmd, "cp "@) || crate::text::has_infix(cmd, " cp "@))
            && crate::text::has_infix(cmd, " /dev/"@) {
            Some("禁止操作：复制到 /dev 设备"@)
        } else {
            None
        },
{
    reveal_strlit("> ");
    reveal_strlit(">");
    let list = crate::tool::bash::block_devices();
    let refused = exists|k: int|
        0 <= k < list.len() && (crate::text::has_infix(cmd, "> "@ + #[trigger] list[k]) || crate::text::has_infix(
            cmd,
            ">"@ + list[k],
        ));
    if refused {
        let k = choose|k: int|
            0 <= k < list.len() && (crate::text::has_infix(cmd, "> "@ + #[trigger] list[k]) || crate::text::has_infix(
                cmd,
                ">"@ + list[k],
            ));
        if crate::text::has_infix(cmd, "> "@ + list[k]) {
            let i = choose|i: int| crate::text::occurs_at(cmd, "> "@ + list[k], i);
            lemma_occurs_behind(cmd, "> "@, list[k], i);
            assert(cmd.subrange(i, i + 2)[0] == '>' && cmd.subrange(i, i + 2)[1] == ' ');
            assert(crate::text::has_prefix_of(cmd.skip(i + 2), list));
            lemma_devices(cmd.skip(i + 2));
            assert(redirects_to_device(cmd, i));
        } else {
            let i = choose|i: int| crate::text::occurs_at(cmd, ">"@ + list[k], i);
            lemma_occurs_behind(cmd, ">"@, list[k], i);
            assert(cmd.subrange(i, i + 1)[0] == '>');
            assert(crate::text::has_prefix_of(cmd.skip(i + 1), list));
            lemma_devices(cmd.skip(i + 1));
            assert(redirects_to_device(cmd, i));
        }
    }
    if exists|i: int| redirects_to_device(cmd, i) {
        let i = choose|i: int| redirects_to_device(cmd, i);
        if is_device(cmd.skip(i + 1)) {
            lemma_devices(cmd.skip(i + 1));
            let k = choose|k: int| 0 <= k < list.len() && crate::text::has_prefix(cmd.skip(i + 1), #[trigger] list[k]);
            assert(cmd.subrange(i, i + 1) =~= ">"@);
            lemma_occurs_behind(cmd, ">"@, list[k], i);
            assert(crate::text::has_infix(cmd, ">"@ + list[k]));
        } else {
            lemma_devices(cmd.skip(i + 2));
            let k = choose|k: int| 0 <= k < list.len() && crate::text::has_prefix(cmd.skip(i + 2), #[trigger] list[k]);
            assert(cmd.subrange(i, i + 2) =~= "> "@);
            lemma_occurs_behind(cmd, "> "@, list[k], i);
            assert(crate::text::has_infix(cmd, "> "@ + list[k]));
        }
        assert(refused);
    }
}

/// Whether a text speaks of stopping the machine or a service.
pub open spec fn speaks_of_stopping(lower: Seq<char>) -> bool {
    ||| crate::text::has_infix(lower, "shutdown"@)
    ||| crate::text::has_infix(lower, "reboot"@)
    ||| crate::text::has_infix(lower, "halt"@)
    ||| crate::text::has_infix(lower, "poweroff"@)
    ||| crate::text::has_infix(lower, "stop"@)
}

/// A call of a service manager is refused if and only if one of its words, in lower case,
/// speaks of stopping; other commands are refused if and only if they stop the machine.
pub proof fn lemma_system_rule(cmd: Seq<char>)
    ensures
        ({
            let base = crate::text::first_word(cmd);
            let words = crate::text::words(cmd);
            crate::tool::bash::system_control_reason(cmd) == if base == "systemctl"@ || base == "launchctl"@ {
                if exists|j: int| 0 <= j < words.len() && speaks_of_stopping(crate::text::lower(#[trigger] words[j])) {
                    Some("禁止操作：系统关机/重启/停止服务命令"@)
                } else {
                    None
                }
            } else if base == "shutdown"@ || base == "reboot"@ || base == "halt"@ || base == "poweroff"@ || base
                == "init"@ || base == "telinit"@ {
                Some("禁止操作：系统关机/重启命令"@)
            } else {
                None
            }
        }),
{
    let base = crate::text::first_word(cmd);
    let words = crate::text::words(cmd);
    let stops = crate::tool::bash::shutdown_commands();
    assert(stops[0] == "shutdown"@ && stops[1] == "reboot"@ && stops[2] == "halt"@ && stops[3] == "poweroff"@);
    assert(stops[4] == "init"@ && stops[5] == "telinit"@);
    assert forall|j: int| 0 <= j < words.len() implies (crate::tool::bash::service_manager_reason(
        crate::text::lower(#[trigger] words[j]),
    ) is Some <==> speaks_of_stopping(crate::text::lower(words[j]))) by {
        lemma_stopping(crate::text::lower(words[j]));
    }
}

/// A text in lower case is refused by a service manager if and only if it speaks of stopping.
pub proof fn lemma_stopping(lower: Seq<char>)
    ensures
        crate::tool::bash::service_manager_reason(lower) == if speaks_of_stopping(lower) {
            Some("禁止操作：系统关机/重启/停止服务命令"@)
        } else {
            None
        },
{
    let verbs = crate::tool::bash::shutdown_verbs();
    assert(verbs[0] == "shutdown"@ && verbs[1] == "reboot"@ && verbs[2] == "halt"@ && verbs[3] == "poweroff"@);
    assert(verbs[4] == "stop"@);
}

/// A function that pipes itself into itself in the background is refused, by whatever name
/// and with whatever spaces it is written.
pub proof fn lemma_fork_bomb_rule(before: Seq<char>, name: Seq<char>, behind: Seq<char>, cmd: Seq<char>)
    requires
        name.len() > 0,
        crate::text::replaced(cmd, " "@, ""@) == before + name + "(){"@ + name + "|"@ + name + "&"@ + behind,
    ensures
        crate::tool::bash::fork_bomb_reason(cmd) == Some("禁止操作：检测到 fork bomb 模式"@),
{
    reveal_strlit("(){");
    reveal_strlit("|");
    reveal_strlit("&");
    let dense = before + name + "(){"@ + name + "|"@ + name + "&"@ + behind;
    let k = before.len() as int;
    let i = k + name.len();
    assert(dense.subrange(k, i) =~= name);
    assert(dense.subrange(i, i + 3) =~= "(){"@);
    let body = name + "|"@ + name + "&"@;
    assert(dense.subrange(i + 3, i + 3 + body.len()) =~= body);
    assert(crate::tool::bash::pipes_into_itself(dense, k, i));
}

/// A command that does not speak of such a function in any of its spellings is no fork
/// bomb.
pub proof fn lemma_no_fork_bomb(cmd: Seq<char>)
    requires
        !crate::text::has_infix(cmd, ":(){"@),
        !crate::text::has_infix(cmd, ":|:&"@),
        !crate::text::has_infix(crate::text::replaced(cmd, " "@, ""@), "(){"@),
    ensures
        crate::tool::bash::fork_bomb_reason(cmd) is None,
{
    reveal_strlit("(){");
    reveal_strlit("(){(|");
    reveal_strlit("(){:|");
    let dense = crate::text::replaced(cmd, " "@, ""@);
    if crate::text::has_infix(dense, "(){(|"@) {
        let i = choose|i: int| crate::text::occurs_at(dense, "(){(|"@, i);
        assert(dense.subrange(i, i + 3) =~= dense.subrange(i, i + 5).subrange(0, 3));
        assert("(){(|"@.subrange(0, 3) =~= "(){"@);
        assert(crate::text::occurs_at(dense, "(){"@, i));
    }
    if crate::text::has_infix(dense, "(){:|"@) {
        let i = choose|i: int| crate::text::occurs_at(dense, "(){:|"@, i);
        assert(dense.subrange(i, i + 3) =~= dense.subrange(i, i + 5).subrange(0, 3));
        assert("(){:|"@.subrange(0, 3) =~= "(){"@);
        assert(crate::text::occurs_at(dense, "(){"@, i));
    }
    assert forall|k: int, i: int| !#[trigger] crate::tool::bash::pipes_into_itself(dense, k, i) by {
        if crate::tool::bash::pipes_into_itself(dense, k, i) {
            assert(crate::text::occurs_at(dense, "(){"@, i));
        }
    }
}

// ---------------------------------------------------------------------------
// Downloads
// ---------------------------------------------------------------------------

/// Whether a word ends with the name of a program that fetches something.
pub open spec fn is_downloader(lower: Seq<char>) -> bool {
    ||| crate::text::has_suffix(lower, "curl"@)
    ||| crate::text::has_suffix(lower, "wget"@)
    ||| crate::text::has_suffix(lower, "aria2c"@)
}

/// Whether a text is a name with a version, or with nothing, behind it.
pub open spec fn is_name_with_version(s: Seq<char>, name: Seq<char>) -> bool {
    crate::text::has_prefix(s, name) && forall|i: int|
        name.len() <= i < s.len() ==> '0' <= #[trigger] s[i] <= '9' || s[i] == '.'
}

/// Whether a program runs what it reads.
pub open spec fn is_interpreter(s: Seq<char>) -> bool {
    ||| is_name_with_version(s, "sh"@)
    ||| is_name_with_version(s, "bash"@)
    ||| is_name_with_version(s, "zsh"@)
    ||| is_name_with_version(s, "python"@)
    ||| is_name_with_version(s, "perl"@)
    ||| is_name_with_version(s, "ruby"@)
}

proof fn lemma_interpreter(lower: Seq<char>)
    ensures
        crate::tool::bash::names_interpreter(lower) <==> is_interpreter(
            crate::text::split_any(lower, seq!['/']).last(),
        ),
{
    let base = crate::text::split_any(lower, seq!['/']).last();
    let list = crate::tool::bash::interpreter_names();
    assert(list[0] == "sh"@ && list[1] == "bash"@ && list[2] == "zsh"@ && list[3] == "python"@);
    assert(list[4] == "perl"@ && list[5] == "ruby"@);
    assert forall|k: int| 0 <= k < list.len() implies (crate::text::has_prefix(base, #[trigger] list[k])
        && crate::tool::bash::is_version(base.skip(list[k].len() as int)) <==> is_name_with_version(base, list[k])) by {
        let n = list[k].len() as int;
        if crate::text::has_prefix(base, list[k]) {
            let rest = base.skip(n);
            if crate::tool::bash::is_version(rest) {
                assert forall|i: int| n <= i < base.len() implies '0' <= #[trigger] base[i] <= '9' || base[i] == '.' by {
                    assert(rest[i - n] == base[i]);
                }
            }
            if is_name_with_version(base, list[k]) {
                assert forall|i: int| 0 <= i < rest.len() implies '0' <= #[trigger] rest[i] <= '9' || rest[i] == '.' by {
                    assert(base[i + n] == rest[i]);
                }
            }
        }
    }
    if crate::tool::bash::names_interpreter(lower) {
        let k = choose|k: int|
            0 <= k < list.len() && crate::text::has_prefix(base, #[trigger] list[k]) && crate::tool::bash::is_version(
                base.skip(list[k].len() as int),
            );
        assert(is_name_with_version(base, list[k]));
    }
    if is_interpreter(base) {
        assert(is_name_with_version(base, list[0]) || is_name_with_version(base, list[1]) || is_name_with_version(
            base,
            list[2],
        ) || is_name_with_version(base, list[3]) || is_name_with_version(base, list[4]) || is_name_with_version(
            base,
            list[5],
        ));
    }
}

/// A pipeline is refused for a download if and only if a word of one of its commands names a
/// program that fetches something, and the first word of a later one names a program that
/// runs what it reads, with or without a directory and a version.
pub proof fn lemma_download_rule(pipeline: Seq<char>)
    ensures
        ({
            let commands = crate::text::split_any(pipeline, seq!['|']);
            crate::tool::bash::download_reason(pipeline) == if exists|i: int, j: int|
                feeds(commands, i, j) {
                Some("禁止操作：下载内容直接管道传递给解释器执行，存在安全风险"@)
            } else {
                None
            }
        }),
{
    let commands = crate::text::split_any(pipeline, seq!['|']);
    assert(crate::tool::bash::command_separators() =~= seq!['|']);
    assert forall|i: int, j: int|
        #![trigger feeds(commands, i, j)]
        #![trigger crate::tool::bash::feeds_interpreter(commands, i, j)]
        crate::tool::bash::feeds_interpreter(commands, i, j) <==> feeds(commands, i, j) by {
        if 0 <= i < j < commands.len() {
            lemma_interpreter(crate::text::lower(crate::text::first_word(commands[j])));
            let words = crate::text::words(commands[i]);
            let list = crate::tool::bash::downloader_names();
            assert(list[0] == "curl"@ && list[1] == "wget"@ && list[2] == "aria2c"@);
            assert forall|k: int| 0 <= k < words.len() implies (crate::tool::bash::names_downloader(
                crate::text::lower(#[trigger] words[k]),
            ) <==> is_downloader(crate::text::lower(words[k]))) by {}
        }
    }
    if exists|i: int, j: int| crate::tool::bash::feeds_interpreter(commands, i, j) {
        let (i, j) = choose|i: int, j: int| crate::tool::bash::feeds_interpreter(commands, i, j);
        assert(feeds(commands, i, j));
    }
    if exists|i: int, j: int| feeds(commands, i, j) {
        let (i, j) = choose|i: int, j: int| feeds(commands, i, j);
        assert(crate::tool::bash::feeds_interpreter(commands, i, j));
    }
}

/// Whether of the commands of a pipeline number `i` fetches something and number `j`, a
/// later one, runs what it reads.
pub open spec fn feeds(commands: Seq<Seq<char>>, i: int, j: int) -> bool {
    let words = crate::text::words(commands[i]);
    &&& 0 <= i < j < commands.len()
    &&& exists|k: int| 0 <= k < words.len() && is_downloader(crate::text::lower(#[trigger] words[k]))
    &&& is_interpreter(
        crate::text::split_any(crate::text::lower(crate::text::first_word(commands[j])), seq!['/']).last(),
    )
}

// ---------------------------------------------------------------------------
// Whole commands
// ---------------------------------------------------------------------------

/// A command is refused if and only if it breaks one of the rules, and for the first of them
/// that it breaks.
pub proof fn lemma_rules_in_their_order(cmd: Seq<char>)
    requires
        cmd.len() > 0,
    ensures
        ({
            let reasons = seq![
                crate::tool::bash::rm_reason(cmd),
                crate::tool::bash::mkfs_reason(cmd),
                crate::tool::bash::dd_reason(cmd),
                crate::tool::bash::redirect_reason(cmd),
                crate::tool::bash::system_control_reason(cmd),
                crate::tool::bash::fork_bomb_reason(cmd),
                crate::tool::bash::chmod_reason(cmd),
                crate::tool::bash::chown_reason(cmd),
                crate::tool::bash::git_reason(cmd),
            ];
            let r = crate::tool::bash::simple_command_reason(cmd);
            &&& forall|i: int|
                0 <= i < 9 && (#[trigger] reasons[i]) is Some && (forall|j: int|
                    0 <= j < i ==> (#[trigger] reasons[j]) is None) ==> r == reasons[i]
            &&& (forall|i: int| 0 <= i < 9 ==> (#[trigger] reasons[i]) is None) ==> r is None
        }),
{
    let reasons = seq![
        crate::tool::bash::rm_reason(cmd),
        crate::tool::bash::mkfs_reason(cmd),
        crate::tool::bash::dd_reason(cmd),
        crate::tool::bash::redirect_reason(cmd),
        crate::tool::bash::system_control_reason(cmd),
        crate::tool::bash::fork_bomb_reason(cmd),
        crate::tool::bash::chmod_reason(cmd),
        crate::tool::bash::chown_reason(cmd),
        crate::tool::bash::git_reason(cmd),
    ];
    let r = crate::tool::bash::simple_command_reason(cmd);
    assert(reasons[0] == crate::tool::bash::rm_reason(cmd));
    assert(reasons[1] == crate::tool::bash::mkfs_reason(cmd));
    assert(reasons[2] == crate::tool::bash::dd_reason(cmd));
    assert(reasons[3] == crate::tool::bash::redirect_reason(cmd));
    assert(reasons[4] == crate::tool::bash::system_control_reason(cmd));
    assert(reasons[5] == crate::tool::bash::fork_bomb_reason(cmd));
    assert(reasons[6] == crate::tool::bash::chmod_reason(cmd));
    assert(reasons[7] == crate::tool::bash::chown_reason(cmd));
    assert(reasons[8] == crate::tool::bash::git_reason(cmd));
}

/// Whether a command has no operator.
pub open spec fn is_single(cmd: Seq<char>) -> bool {
    !cmd.contains(';') && !cmd.contains('\n') && !cmd.contains('&') && !cmd.contains('|') && !cmd.contains('>')
}

proof fn lemma_no_such_operator(s: Seq<char>, from: Seq<char>, to: Seq<char>, c: char)
    requires
        !s.contains(c),
        from.contains(c),
    ensures
        crate::text::replaced(s, from, to) == s,
{
    if crate::text::has_infix(s, from) {
        let i = choose|i: int| crate::text::occurs_at(s, from, i);
        let k = choose|k: int| 0 <= k < from.len() && from[k] == c;
        assert(s.subrange(i, i + from.len())[k] == s[i + k]);
        assert(s.contains(s[i + k]));
    }
    crate::spelling::lemma_nothing_replaced(s, from, to);
}

proof fn lemma_plain_already(s: Seq<char>)
    requires
        !s.contains('&'),
        !s.contains('|'),
        !s.contains('>'),
    ensures
        crate::tool::bash::plain_operators(s) == s,
{
    reveal_strlit("&&");
    reveal_strlit("||");
    reveal_strlit("2>&1");
    reveal_strlit("1>&2");
    reveal_strlit("&>>");
    reveal_strlit("&>");
    reveal_strlit(">&");
    assert("&&"@[0] == '&' && "||"@[0] == '|' && "2>&1"@[1] == '>' && "1>&2"@[1] == '>');
    assert("&>>"@[0] == '&' && "&>"@[0] == '&' && ">&"@[0] == '>');
    lemma_no_such_operator(s, "&&"@, "\n"@, '&');
    lemma_no_such_operator(s, "||"@, "\n"@, '|');
    lemma_no_such_operator(s, "2>&1"@, " "@, '>');
    lemma_no_such_operator(s, "1>&2"@, " "@, '>');
    lemma_no_such_operator(s, "&>>"@, " >>"@, '&');
    lemma_no_such_operator(s, "&>"@, " >"@, '&');
    lemma_no_such_operator(s, ">&"@, ">"@, '>');
}

proof fn lemma_one_part(s: Seq<char>, seps: Seq<char>, reason: spec_fn(Seq<char>) -> Option<Seq<char>>)
    requires
        forall|i: int| 0 <= i < s.len() ==> !seps.contains(#[trigger] s[i]),
        seps.len() > 0,
    ensures
        crate::text::split_any(s, seps) == seq![s],
        crate::tool::bash::first_reason(crate::text::split_any(s, seps), reason) == reason(s),
{
    assert(seps.contains(seps[0]));
    crate::spelling::lemma_split_at_separators(s, seps[0], s, seps);
    let parts = seq![s];
    assert(parts.drop_first() =~= Seq::empty());
    assert(crate::tool::bash::first_reason(parts.drop_first(), reason) is None);
}

/// A command without operators is refused for its own sake alone: for the first rule that it
/// breaks, white space round it apart.
pub proof fn lemma_single_command(cmd: Seq<char>)
    requires
        is_single(cmd),
    ensures
        crate::tool::bash::danger(cmd) == crate::tool::bash::simple_command_reason(crate::text::trim(cmd)),
{
    let t = crate::text::trim(cmd);
    crate::text::lemma_trimmed(cmd);
    assert(is_single(t));
    lemma_plain_already(t);
    let statements = crate::tool::bash::statement_separators();
    let pipelines = crate::tool::bash::pipeline_separators();
    let commands = crate::tool::bash::command_separators();
    assert forall|i: int| 0 <= i < t.len() implies !statements.contains(#[trigger] t[i]) && !pipelines.contains(t[i])
        && !commands.contains(t[i]) by {
        assert(t.contains(t[i]));
    }
    lemma_one_part(t, statements, crate::tool::bash::of_statement());
    lemma_one_part(t, pipelines, crate::tool::bash::of_pipeline());
    lemma_one_part(t, commands, crate::tool::bash::of_command());
    assert(crate::tool::bash::download_reason(t) is None) by {
        assert forall|i: int, j: int| !#[trigger] crate::tool::bash::feeds_interpreter(seq![t], i, j) by {}
    }
    if t.len() == 0 {
        assert(t =~= Seq::<char>::empty());
        crate::tool::compound::lemma_nothing_is_allowed();
    }
}

/// The first of two reasons, if there is one.
pub open spec fn either(a: Option<Seq<char>>, b: Option<Seq<char>>) -> Option<Seq<char>> {
    match a {
        Some(_) => a,
        None => b,
    }
}

/// Whether two commands can stand round an operator without white space round the whole.
pub open spec fn are_round_an_operator(a: Seq<char>, b: Seq<char>) -> bool {
    &&& is_single(a) && a.len() > 0 && !crate::text::is_white_space(a[0])
    &&& is_single(b) && b.len() > 0 && !crate::text::is_white_space(b.last())
}

proof fn lemma_round_an_operator(a: Seq<char>, c: char, b: Seq<char>)
    requires
        are_round_an_operator(a, b),
        c == '&' || c == '|',
    ensures
        ({
            let all = a.push(c) + b;
            &&& crate::text::trim(all) == all
            &&& crate::tool::bash::plain_operators(all) == all
            &&& crate::text::split_any(all, crate::tool::bash::statement_separators()) == seq![all]
            &&& crate::text::split_any(all, seq![c]) == seq![a, b]
            &&& c == '&' ==> forall|i: int| 0 <= i < all.len() ==> #[trigger] all[i] != '|'
            &&& c == '|' ==> forall|i: int| 0 <= i < all.len() ==> #[trigger] all[i] != '&'
        }),
{
    let all = a.push(c) + b;
    let none = Seq::<char>::empty();
    crate::spelling::lemma_trim_cuts_off_white_space(none, all, none);
    assert(none + all + none =~= all);
    assert forall|i: int| 0 <= i < all.len() && i != a.len() implies #[trigger] all[i] != ';' && all[i] != '\n'
        && all[i] != '&' && all[i] != '|' && all[i] != '>' by {
        if i < a.len() {
            assert(a.contains(a[i]));
        } else {
            assert(b.contains(b[i - a.len() - 1]));
        }
    }
    lemma_plain_round(all, a.len() as int);
    let seps = crate::tool::bash::statement_separators();
    assert forall|i: int| 0 <= i < all.len() implies !seps.contains(#[trigger] all[i]) by {}
    lemma_one_part(all, seps, crate::tool::bash::of_statement());
    let sep = seq![c];
    assert(sep[0] == c);
    assert(sep.contains(c));
    assert forall|i: int| 0 <= i < a.len() implies !sep.contains(#[trigger] a[i]) by {
        assert(a.contains(a[i]));
    }
    assert forall|i: int| 0 <= i < b.len() implies !sep.contains(#[trigger] b[i]) by {
        assert(b.contains(b[i]));
    }
    crate::spelling::lemma_split_at_separators(a, c, b, sep);
    crate::spelling::lemma_split_at_separators(b, c, a, sep);
    assert(seq![a] + seq![b] =~= seq![a, b]);
}

proof fn lemma_plain_round(s: Seq<char>, p: int)
    requires
        0 <= p < s.len(),
        s[p] == '&' || s[p] == '|',
        forall|i: int|
            0 <= i < s.len() && i != p ==> #[trigger] s[i] != '&' && s[i] != '|' && s[i] != '>',
    ensures
        crate::tool::bash::plain_operators(s) == s,
{
    reveal_strlit("&&");
    reveal_strlit("||");
    reveal_strlit("2>&1");
    reveal_strlit("1>&2");
    reveal_strlit("&>>");
    reveal_strlit("&>");
    reveal_strlit(">&");
    assert(!s.contains('>'));
    if crate::text::has_infix(s, "&&"@) {
        let i = choose|i: int| crate::text::occurs_at(s, "&&"@, i);
        assert(s.subrange(i, i + 2)[0] == s[i] && s.subrange(i, i + 2)[1] == s[i + 1]);
    }
    crate::spelling::lemma_nothing_replaced(s, "&&"@, "\n"@);
    if crate::text::has_infix(s, "||"@) {
        let i = choose|i: int| crate::text::occurs_at(s, "||"@, i);
        assert(s.subrange(i, i + 2)[0] == s[i] && s.subrange(i, i + 2)[1] == s[i + 1]);
    }
    crate::spelling::lemma_nothing_replaced(s, "||"@, "\n"@);
    assert("2>&1"@[1] == '>' && "1>&2"@[1] == '>' && "&>>"@[1] == '>' && "&>"@[1] == '>' && ">&"@[0] == '>');
    lemma_no_such_operator(s, "2>&1"@, " "@, '>');
    lemma_no_such_operator(s, "1>&2"@, " "@, '>');
    lemma_no_such_operator(s, "&>>"@, " >>"@, '>');
    lemma_no_such_operator(s, "&>"@, " >"@, '>');
    lemma_no_such_operator(s, ">&"@, ">"@, '>');
}

proof fn lemma_two_parts(a: Seq<char>, b: Seq<char>, reason: spec_fn(Seq<char>) -> Option<Seq<char>>)
    ensures
        crate::tool::bash::first_reason(seq![a, b], reason) == either(reason(a), reason(b)),
{
    let parts = seq![a, b];
    assert(parts.drop_first() =~= seq![b]);
    assert(seq![b].drop_first() =~= Seq::empty());
    assert(crate::tool::bash::first_reason(seq![b].drop_first(), reason) is None);
    assert(crate::tool::bash::first_reason(seq![b], reason) == reason(b));
}

proof fn lemma_no_download(s: Seq<char>)
    requires
        !s.contains('|'),
    ensures
        crate::tool::bash::download_reason(s) is None,
{
    let commands = crate::tool::bash::command_separators();
    assert forall|i: int| 0 <= i < s.len() implies !commands.contains(#[trigger] s[i]) by {
        assert(s.contains(s[i]));
    }
    lemma_one_part(s, commands, crate::tool::bash::of_command());
    assert forall|i: int, j: int| !#[trigger] crate::tool::bash::feeds_interpreter(seq![s], i, j) by {}
}

/// Two commands of which the first goes on in the background are refused for the first
/// of them that is refused, or because they are a fork bomb together.
pub proof fn lemma_background(a: Seq<char>, b: Seq<char>)
    requires
        are_round_an_operator(a, b),
    ensures
        crate::tool::bash::danger(a + "&"@ + b) == either(
            either(
                crate::tool::bash::simple_command_reason(crate::text::trim(a)),
                crate::tool::bash::simple_command_reason(crate::text::trim(b)),
            ),
            crate::tool::bash::fork_bomb_reason(a + "&"@ + b),
        ),
{
    reveal_strlit("&");
    let all = a.push('&') + b;
    assert(a + "&"@ + b =~= all);
    lemma_round_an_operator(a, '&', b);
    assert(crate::tool::bash::pipeline_separators() =~= seq!['&']);
    lemma_two_parts(a, b, crate::tool::bash::of_pipeline());
    lemma_pipeline_of_one(a);
    lemma_pipeline_of_one(b);
    let statement = seq![all];
    assert(statement.drop_first() =~= Seq::empty());
    assert(crate::tool::bash::first_reason(statement.drop_first(), crate::tool::bash::of_statement()) is None);
}

proof fn lemma_pipeline_of_one(s: Seq<char>)
    requires
        is_single(s),
    ensures
        crate::tool::bash::pipeline_reason(s) == crate::tool::bash::simple_command_reason(crate::text::trim(s)),
{
    let commands = crate::tool::bash::command_separators();
    assert forall|i: int| 0 <= i < s.len() implies !commands.contains(#[trigger] s[i]) by {
        assert(s.contains(s[i]));
    }
    lemma_one_part(s, commands, crate::tool::bash::of_command());
    crate::text::lemma_trimmed(s);
    lemma_no_download(crate::text::trim(s));
}

/// Two commands with a pipe between them are refused for the first of them that is
/// refused, because a download goes into an interpreter, or because they are a fork bomb
/// together.
pub proof fn lemma_pipeline_of_two(a: Seq<char>, b: Seq<char>)
    requires
        are_round_an_operator(a, b),
    ensures
        crate::tool::bash::danger(a + "|"@ + b) == either(
            either(
                either(
                    crate::tool::bash::simple_command_reason(crate::text::trim(a)),
                    crate::tool::bash::simple_command_reason(crate::text::trim(b)),
                ),
                crate::tool::bash::download_reason(a + "|"@ + b),
            ),
            crate::tool::bash::fork_bomb_reason(a + "|"@ + b),
        ),
{
    reveal_strlit("|");
    let all = a.push('|') + b;
    assert(a + "|"@ + b =~= all);
    lemma_round_an_operator(a, '|', b);
    assert(crate::tool::bash::command_separators() =~= seq!['|']);
    lemma_two_parts(a, b, crate::tool::bash::of_command());
    let pipelines = crate::tool::bash::pipeline_separators();
    assert forall|i: int| 0 <= i < all.len() implies !pipelines.contains(#[trigger] all[i]) by {}
    lemma_one_part(all, pipelines, crate::tool::bash::of_pipeline());
    let statement = seq![all];
    assert(statement.drop_first() =~= Seq::empty());
    assert(crate::tool::bash::first_reason(statement.drop_first(), crate::tool::bash::of_statement()) is None);
}

/// Whether a text speaks of a program that fetches something.
pub open spec fn speaks_of_download(lower: Seq<char>) -> bool {
    ||| crate::text::has_infix(lower, "curl "@)
    ||| crate::text::has_infix(lower, "wget "@)
    ||| crate::text::has_infix(lower, "aria2c "@)
}

/// Whether a text speaks of a pipe into a program that runs what it reads.
pub open spec fn speaks_of_interpreter(lower: Seq<char>) -> bool {
    ||| crate::text::has_infix(lower, "| sh"@)
    ||| crate::text::has_infix(lower, "| bash"@)
    ||| crate::text::has_infix(lower, "| zsh"@)
    ||| crate::text::has_infix(lower, "| /bin/sh"@)
    ||| crate::text::has_infix(lower, "| /bin/bash"@)
    ||| crate::text::has_infix(lower, "| python"@)
    ||| crate::text::has_infix(lower, "| perl"@)
    ||| crate::text::has_infix(lower, "| ruby"@)
}

/// A text is refused for a download into an interpreter if and only if it speaks of both,
/// in whatever case.
pub proof fn lemma_pipe_to_shell_rule(cmd: Seq<char>)
    ensures
        ({
            let lower = crate::text::lower(cmd);
            crate::tool::bash::pipe_to_shell_reason(cmd) == if speaks_of_download(lower) && speaks_of_interpreter(lower) {
                Some("禁止操作：下载内容直接管道传递给解释器执行，存在安全风险"@)
            } else {
                None
            }
        }),
{
    let from = crate::tool::bash::downloaders();
    let into = crate::tool::bash::interpreter_pipes();
    assert(from[0] == "curl "@ && from[1] == "wget "@ && from[2] == "aria2c "@);
    assert(into[0] == "| sh"@ && into[1] == "| bash"@ && into[2] == "| zsh"@ && into[3] == "| /bin/sh"@);
    assert(into[4] == "| /bin/bash"@ && into[5] == "| python"@ && into[6] == "| perl"@ && into[7] == "| ruby"@);
}

// ---------------------------------------------------------------------------
// Redirections
// ---------------------------------------------------------------------------

/// Whether a character belongs to an operator.
pub open spec fn is_mark(c: char) -> bool {
    c == '&' || c == '|' || c == '>'
}

proof fn lemma_marks(a: Seq<char>, op: Seq<char>, b: Seq<char>, i: int)
    requires
        is_single(a),
        is_single(b),
        0 <= i < (a + op + b).len(),
        is_mark((a + op + b)[i]),
    ensures
        a.len() <= i < a.len() + op.len(),
        (a + op + b)[i] == op[i - a.len()],
{
    if i < a.len() {
        assert(a.contains(a[i]));
    } else if i >= a.len() + op.len() {
        assert(b.contains(b[i - a.len() - op.len()]));
    }
}

/// An operator whose marks cannot stand where those of another do does not occur.
proof fn lemma_absent(a: Seq<char>, op: Seq<char>, b: Seq<char>, from: Seq<char>, to: Seq<char>, k: int, l: int)
    requires
        is_single(a),
        is_single(b),
        0 <= k < l < from.len(),
        is_mark(from[k]),
        is_mark(from[l]),
        forall|i: int, j: int|
            0 <= i < op.len() && 0 <= j < op.len() && j - i == l - k ==> !(#[trigger] op[i] == from[k] && #[trigger] op[j]
                == from[l]),
    ensures
        crate::text::replaced(a + op + b, from, to) == a + op + b,
{
    let s = a + op + b;
    if crate::text::has_infix(s, from) {
        let i = choose|i: int| crate::text::occurs_at(s, from, i);
        assert(s.subrange(i, i + from.len())[k] == s[i + k]);
        assert(s.subrange(i, i + from.len())[l] == s[i + l]);
        lemma_marks(a, op, b, i + k);
        lemma_marks(a, op, b, i + l);
        assert(!(op[i + k - a.len()] == from[k] && op[i + l - a.len()] == from[l]));
    }
    crate::spelling::lemma_nothing_replaced(s, from, to);
}

/// An operator between commands without operators is replaced where it stands.
proof fn lemma_present(a: Seq<char>, op: Seq<char>, b: Seq<char>, to: Seq<char>, k: int)
    requires
        is_single(a),
        is_single(b),
        0 <= k < op.len(),
        is_mark(op[k]),
        forall|i: int| 0 <= i < op.len() && i != k ==> #[trigger] op[i] != op[k],
    ensures
        crate::text::replaced(a + op + b, op, to) == a + to + b,
{
    let s = a + op + b;
    assert forall|i: int| 0 <= i < a.len() implies !#[trigger] crate::text::occurs_at(s, op, i) by {
        if crate::text::occurs_at(s, op, i) {
            assert(s.subrange(i, i + op.len())[k] == s[i + k]);
            lemma_marks(a, op, b, i + k);
        }
    }
    crate::spelling::lemma_first_replaced(a, b, op, to);
    assert(op.contains(op[k]));
    assert(!b.contains(op[k]));
    lemma_no_such_operator(b, op, to, op[k]);
}

proof fn lemma_plain_without_and(s: Seq<char>)
    requires
        !s.contains('&'),
        !s.contains('|'),
    ensures
        crate::tool::bash::plain_operators(s) == s,
{
    reveal_strlit("&&");
    reveal_strlit("||");
    reveal_strlit("2>&1");
    reveal_strlit("1>&2");
    reveal_strlit("&>>");
    reveal_strlit("&>");
    reveal_strlit(">&");
    assert("&&"@[0] == '&' && "||"@[0] == '|' && "2>&1"@[2] == '&' && "1>&2"@[2] == '&');
    assert("&>>"@[0] == '&' && "&>"@[0] == '&' && ">&"@[1] == '&');
    lemma_no_such_operator(s, "&&"@, "\n"@, '&');
    lemma_no_such_operator(s, "||"@, "\n"@, '|');
    lemma_no_such_operator(s, "2>&1"@, " "@, '&');
    lemma_no_such_operator(s, "1>&2"@, " "@, '&');
    lemma_no_such_operator(s, "&>>"@, " >>"@, '&');
    lemma_no_such_operator(s, "&>"@, " >"@, '&');
    lemma_no_such_operator(s, ">&"@, ">"@, '&');
}

proof fn lemma_no_and_or_pipe(a: Seq<char>, mid: Seq<char>, b: Seq<char>)
    requires
        is_single(a),
        is_single(b),
        !mid.contains('&'),
        !mid.contains('|'),
    ensures
        !(a + mid + b).contains('&'),
        !(a + mid + b).contains('|'),
{
    let s = a + mid + b;
    assert forall|i: int| 0 <= i < s.len() implies s[i] != '&' && s[i] != '|' by {
        if s[i] == '&' || s[i] == '|' {
            lemma_marks(a, mid, b, i);
            assert(mid.contains(mid[i - a.len()]));
        }
    }
}

proof fn lemma_bare_whole(a: Seq<char>, mid: Seq<char>, b: Seq<char>)
    requires
        are_round_an_operator(a, b),
    ensures
        crate::text::trim(a + mid + b) == a + mid + b,
{
    let none = Seq::<char>::empty();
    let all = a + mid + b;
    crate::spelling::lemma_trim_cuts_off_white_space(none, all, none);
    assert(none + all + none =~= all);
}

/// A redirection of both outputs is judged as one of the output, apart from what stands
/// before it.
pub proof fn lemma_both_outputs(a: Seq<char>, b: Seq<char>)
    requires
        are_round_an_operator(a, b),
    ensures
        crate::tool::bash::danger(a + "&>"@ + b) == crate::tool::bash::danger(a + " >"@ + b),
        crate::tool::bash::danger(a + "&>>"@ + b) == crate::tool::bash::danger(a + " >>"@ + b),
{
    reveal_strlit("&&");
    reveal_strlit("||");
    reveal_strlit("2>&1");
    reveal_strlit("1>&2");
    reveal_strlit("&>>");
    reveal_strlit("&>");
    reveal_strlit(">&");
    reveal_strlit(" >");
    reveal_strlit(" >>");
    lemma_bare_whole(a, "&>"@, b);
    lemma_bare_whole(a, " >"@, b);
    lemma_bare_whole(a, "&>>"@, b);
    lemma_bare_whole(a, " >>"@, b);
    lemma_absent(a, "&>"@, b, "&&"@, "\n"@, 0, 1);
    lemma_absent(a, "&>"@, b, "||"@, "\n"@, 0, 1);
    lemma_absent(a, "&>"@, b, "2>&1"@, " "@, 1, 2);
    lemma_absent(a, "&>"@, b, "1>&2"@, " "@, 1, 2);
    lemma_absent(a, "&>"@, b, "&>>"@, " >>"@, 1, 2);
    lemma_present(a, "&>"@, b, " >"@, 0);
    lemma_absent(a, " >"@, b, ">&"@, ">"@, 0, 1);
    lemma_no_and_or_pipe(a, " >"@, b);
    lemma_plain_without_and(a + " >"@ + b);
    lemma_absent(a, "&>>"@, b, "&&"@, "\n"@, 0, 1);
    lemma_absent(a, "&>>"@, b, "||"@, "\n"@, 0, 1);
    lemma_absent(a, "&>>"@, b, "2>&1"@, " "@, 1, 2);
    lemma_absent(a, "&>>"@, b, "1>&2"@, " "@, 1, 2);
    lemma_present(a, "&>>"@, b, " >>"@, 0);
    lemma_absent(a, " >>"@, b, "&>"@, " >"@, 0, 1);
    lemma_absent(a, " >>"@, b, ">&"@, ">"@, 0, 1);
    lemma_no_and_or_pipe(a, " >>"@, b);
    lemma_plain_without_and(a + " >>"@ + b);
}

/// A redirection into another output counts for nothing.
pub proof fn lemma_output_into_the_other(a: Seq<char>, b: Seq<char>)
    requires
        are_round_an_operator(a, b),
    ensures
        crate::tool::bash::danger(a + "2>&1"@ + b) == crate::tool::bash::danger(a + " "@ + b),
        crate::tool::bash::danger(a + "1>&2"@ + b) == crate::tool::bash::danger(a + " "@ + b),
{
    reveal_strlit("&&");
    reveal_strlit("||");
    reveal_strlit("2>&1");
    reveal_strlit("1>&2");
    reveal_strlit("&>>");
    reveal_strlit("&>");
    reveal_strlit(">&");
    reveal_strlit(" ");
    lemma_bare_whole(a, "2>&1"@, b);
    lemma_bare_whole(a, "1>&2"@, b);
    lemma_bare_whole(a, " "@, b);
    lemma_no_and_or_pipe(a, " "@, b);
    lemma_plain_without_and(a + " "@ + b);
    lemma_absent(a, "2>&1"@, b, "&&"@, "\n"@, 0, 1);
    lemma_absent(a, "2>&1"@, b, "||"@, "\n"@, 0, 1);
    lemma_present(a, "2>&1"@, b, " "@, 1);
    lemma_absent(a, " "@, b, "1>&2"@, " "@, 1, 2);
    lemma_absent(a, " "@, b, "&>>"@, " >>"@, 0, 1);
    lemma_absent(a, " "@, b, "&>"@, " >"@, 0, 1);
    lemma_absent(a, " "@, b, ">&"@, ">"@, 0, 1);
    lemma_absent(a, "1>&2"@, b, "&&"@, "\n"@, 0, 1);
    lemma_absent(a, "1>&2"@, b, "||"@, "\n"@, 0, 1);
    lemma_other_number(a, b);
    lemma_present(a, "1>&2"@, b, " "@, 1);
}

proof fn lemma_other_number(a: Seq<char>, b: Seq<char>)
    requires
        is_single(a),
        is_single(b),
    ensures
        crate::text::replaced(a + "1>&2"@ + b, "2>&1"@, " "@) == a + "1>&2"@ + b,
{
    reveal_strlit("2>&1");
    reveal_strlit("1>&2");
    let s = a + "1>&2"@ + b;
    if crate::text::has_infix(s, "2>&1"@) {
        let i = choose|i: int| crate::text::occurs_at(s, "2>&1"@, i);
        assert(s.subrange(i, i + 4)[1] == s[i + 1]);
        assert(s.subrange(i, i + 4)[0] == s[i]);
        lemma_marks(a, "1>&2"@, b, i + 1);
        assert(s[i] == "1>&2"@[0]);
    }
    crate::spelling::lemma_nothing_replaced(s, "2>&1"@, " "@);
}

proof fn lemma_no_number_before(a: Seq<char>, b: Seq<char>, from: Seq<char>)
    requires
        is_single(a),
        is_single(b),
        a.len() > 0,
        from.len() == 4,
        from[1] == '>',
        from[0] != a.last(),
    ensures
        crate::text::replaced(a + ">&"@ + b, from, " "@) == a + ">&"@ + b,
{
    reveal_strlit(">&");
    let s = a + ">&"@ + b;
    if crate::text::has_infix(s, from) {
        let i = choose|i: int| crate::text::occurs_at(s, from, i);
        assert(s.subrange(i, i + 4)[1] == s[i + 1]);
        assert(s.subrange(i, i + 4)[0] == s[i]);
        lemma_marks(a, ">&"@, b, i + 1);
        assert(i + 1 == a.len());
        assert(s[i] == a.last());
    }
    crate::spelling::lemma_nothing_replaced(s, from, " "@);
}

/// A redirection with `>&` into a file is judged as one with `>`.
pub proof fn lemma_redirection_with_and(a: Seq<char>, b: Seq<char>)
    requires
        are_round_an_operator(a, b),
        a.last() != '1' && a.last() != '2',
    ensures
        crate::tool::bash::danger(a + ">&"@ + b) == crate::tool::bash::danger(a + ">"@ + b),
{
    reveal_strlit("&&");
    reveal_strlit("||");
    reveal_strlit("2>&1");
    reveal_strlit("1>&2");
    reveal_strlit("&>>");
    reveal_strlit("&>");
    reveal_strlit(">&");
    reveal_strlit(">");
    lemma_bare_whole(a, ">&"@, b);
    lemma_bare_whole(a, ">"@, b);
    lemma_no_and_or_pipe(a, ">"@, b);
    lemma_plain_without_and(a + ">"@ + b);
    lemma_absent(a, ">&"@, b, "&&"@, "\n"@, 0, 1);
    lemma_absent(a, ">&"@, b, "||"@, "\n"@, 0, 1);
    lemma_no_number_before(a, b, "2>&1"@);
    lemma_no_number_before(a, b, "1>&2"@);
    lemma_absent(a, ">&"@, b, "&>>"@, " >>"@, 0, 1);
    lemma_absent(a, ">&"@, b, "&>"@, " >"@, 0, 1);
    lemma_present(a, ">&"@, b, ">"@, 0);
}

} // verus!
