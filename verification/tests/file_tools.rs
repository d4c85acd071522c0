//! The tools that read and write files, and the rule about where files may lie.

use agent_tutorial::json::Json;
use agent_tutorial::tool::output::ToolOutput;
use agent_tutorial::tool::path::{
    is_within_cwd, normalize_path, path_components, path_starts_with, same_path, PathAncestor, PathComponent,
    PathProbe,
};
use agent_tutorial::tool::read_file::{ReadFileTool, ReadOutcome, ReadRequest};
use agent_tutorial::tool::registry::Tool;
use agent_tutorial::tool::write_file::{WriteFileTool, WriteOutcome, WriteRequest};

fn json(text: &str) -> Json {
    Json::parse(text).unwrap()
}

/// A path in a directory without links, with its target.
fn existing(cwd: &str, canonical: &str) -> PathProbe {
    PathProbe {
        cwd: Some(cwd.to_string()),
        resolved_cwd: Some(cwd.to_string()),
        canonical: Some(canonical.to_string()),
        ancestor: None,
    }
}

/// A path, taken from `/work`, that does not exist, with the part of it that does.
fn missing(target: &str, rest: &str) -> PathProbe {
    PathProbe {
        canonical: None,
        ancestor: Some(PathAncestor { target: target.to_string(), rest: rest.to_string() }),
        ..existing("/work", "/work")
    }
}

fn read_request(path: &str, limit: Option<u64>) -> ReadRequest {
    ReadRequest { path: path.to_string(), limit }
}

fn content(text: &str) -> ReadOutcome {
    ReadOutcome::Content(text.to_string())
}

fn spelled(components: &Vec<PathComponent>) -> String {
    components
        .iter()
        .map(|c| match c {
            PathComponent::RootDir => "<root>".to_string(),
            PathComponent::CurDir => "<cur>".to_string(),
            PathComponent::ParentDir => "<up>".to_string(),
            PathComponent::Normal(name) => name.clone(),
        })
        .collect::<Vec<_>>()
        .join(" ")
}

// ========== read_file ==========

#[test]
fn read_file_execute_empty_path_returns_error() {
    let result = ReadFileTool::request(&json("{}")).unwrap_err();
    assert!(result.is_error);
    assert!(result.content.contains("required"));
    assert_eq!(result.content, "Error: path parameter is required");
}

#[test]
fn execute_file_not_found() {
    let tool = ReadFileTool::new(5);
    let request = ReadFileTool::request(&json(r#"{"path": "/nonexistent/path/file.txt"}"#)).unwrap();
    let result = tool.authorize(&request, &missing("/", "nonexistent/path/file.txt")).unwrap();
    assert!(!result.is_error);
    assert!(result.content.contains("路径限制"));
    assert!(result.needs_approval);
}

#[test]
fn execute_cwd_internal_file_not_found() {
    let tool = ReadFileTool::new(5);
    let request = read_request("/work/nonexistent_test_file_12345.txt", None);
    assert!(tool.authorize(&request, &missing("/work", "nonexistent_test_file_12345.txt")).is_none());
    let result = tool.report(&request, ReadOutcome::NotFound);
    assert!(result.is_error);
    assert!(result.content.contains("文件不存在"));
    assert!(!result.needs_approval);
}

#[test]
fn execute_read_file_success() {
    let tool = ReadFileTool::new(5);
    let request = ReadFileTool::request(&json(r#"{"path": "/work/Cargo.toml"}"#)).unwrap();
    assert!(tool.authorize(&request, &existing("/work", "/work/Cargo.toml")).is_none());
    let result = tool.report(&request, content("[package]\nname = \"x\"\n"));
    assert!(!result.is_error);
    assert!(result.content.contains("[package]") || result.content.contains("[workspace"));
    assert_eq!(result.content, "1\t[package]\n2\tname = \"x\"\n");
}

#[test]
fn execute_with_limit_truncates() {
    let tool = ReadFileTool::new(5);
    let request = ReadFileTool::request(&json(r#"{"path": "/work/Cargo.toml", "limit": 1}"#)).unwrap();
    assert_eq!(request.limit, Some(1));
    let result = tool.report(&request, content("[package]\nname = \"x\"\n"));
    assert!(!result.is_error);
    assert!(result.content.contains("文件内容被截断"));
    assert_eq!(
        result.content,
        "1\t[package]\n\n--- 文件内容被截断 (已显示 1 行 / 共 2 行，剩余 1 行) ---"
    );
}

#[test]
fn execute_with_limit_larger_than_file() {
    let tool = ReadFileTool::new(5);
    let request = ReadFileTool::request(&json(r#"{"path": "/work/Cargo.toml", "limit": 1000}"#)).unwrap();
    let result = tool.report(&request, content("[package]\nname = \"x\"\n"));
    assert!(!result.is_error);
    assert!(!result.content.contains("文件内容被截断"));
}

#[test]
fn read_file_name_and_description() {
    let tool = ReadFileTool::default();
    assert_eq!(tool.name(), "read_file");
    assert!(tool.description().contains("file"));
    assert_eq!(tool.timeout_secs(), 30);
}

#[test]
fn parameters_requires_path() {
    let tool = ReadFileTool::default();
    let params = tool.parameters().to_value();
    assert_eq!(params["type"], "object");
    let required: Vec<_> = params["required"]
        .as_array()
        .unwrap()
        .iter()
        .map(|v| v.as_str().unwrap())
        .collect();
    assert!(required.contains(&"path"));
    assert_eq!(required, vec!["path"]);
    assert_eq!(params["properties"]["limit"]["type"], "integer");
}

#[test]
fn execute_external_path_blocked() {
    let tool = ReadFileTool::new(5);
    let request = ReadFileTool::request(&json(r#"{"path": "/etc/passwd"}"#)).unwrap();
    let result = tool.authorize(&request, &existing("/work", "/etc/passwd")).unwrap();
    assert!(!result.is_error);
    assert!(result.needs_approval);
    assert!(result.approval_path.is_some());
    assert!(result.content.contains("路径限制"));
    assert_eq!(result.approval_path, Some("/etc/passwd".to_string()));
    assert_eq!(
        result.content,
        "路径限制：文件 `/etc/passwd` 不在当前工作目录内。\n需要用户批准才能读取此文件。\n请询问用户是否同意读取，用户同意后系统会批准该路径并重新执行读取。"
    );
}

#[test]
fn approve_and_read_external_file() {
    let mut tool = ReadFileTool::new(5);
    let path = "/tmp/agent-tutorial-test-read.txt";
    let input = json(&format!("{{\"path\": \"{path}\"}}"));
    let request = ReadFileTool::request(&input).unwrap();
    let outside = existing("/work", path);
    assert!(tool.authorize(&request, &outside).unwrap().needs_approval);

    tool.approve(&input, &Some(path.to_string()));

    assert!(tool.authorize(&request, &outside).is_none());
    let result = tool.report(&request, content("hello external world"));
    assert!(!result.is_error);
    assert!(result.content.contains("hello external world"));
    assert_eq!(result.content, "1\thello external world");
}

#[test]
fn consent_covers_the_path_and_its_target_and_nothing_else() {
    let mut tool = ReadFileTool::new(5);
    let input = json(r#"{"path": "/links/a"}"#);
    tool.approve(&input, &Some("/data/real".to_string()));
    assert!(tool.is_path_approved("/links/a", &None));
    assert!(tool.is_path_approved("/links//a", &None));
    assert!(tool.is_path_approved("/data/real", &None));
    assert!(tool.is_path_approved("/links/b", &Some("/data/real".to_string())));
    assert!(!tool.is_path_approved("/links/b", &None));
    assert!(!tool.is_path_approved("/data", &Some("/data".to_string())));

    let mut other = ReadFileTool::new(5);
    other.approve(&json("{}"), &Some("/data/real".to_string()));
    assert!(!other.is_path_approved("/data/real", &None));
    other.approve(&json(r#"{"path": "/x"}"#), &None);
    assert!(other.is_path_approved("/x", &None));
}

#[test]
fn read_attempts_that_failed_are_reported() {
    let tool = ReadFileTool::new(9);
    let request = read_request("notes.txt", None);
    let say = |outcome: ReadOutcome| {
        let result = tool.report(&request, outcome);
        assert!(result.is_error);
        result.content
    };
    assert_eq!(say(ReadOutcome::TimedOut), "读取文件超时 (9s)");
    assert_eq!(say(ReadOutcome::NotFound), "文件不存在: notes.txt");
    assert_eq!(say(ReadOutcome::PermissionDenied), "没有权限读取: notes.txt");
    assert_eq!(
        say(ReadOutcome::InvalidData),
        "无法以文本方式读取，文件可能是二进制或非 UTF-8 编码: notes.txt"
    );
    assert_eq!(say(ReadOutcome::Failed("boom".to_string())), "读取文件失败: boom");
}

#[test]
fn lines_are_those_of_the_standard_library() {
    let tool = ReadFileTool::new(5);
    for text in ["", "a", "a\n", "a\nb", "a\r\nb\r\n", "\n\n", "a\r", "a\r\n\r\n", "x\ny\nz\n"] {
        let all: Vec<&str> = text.lines().collect();
        for n in 0..5u64 {
            let shown = tool.report(&read_request("f", Some(n)), content(text)).content;
            if (n as usize) < all.len() {
                let kept = (0..n as usize).map(|i| format!("{}\t{}", i + 1, all[i])).collect::<Vec<_>>().join("\n");
                let rest = all.len() - n as usize;
                let hint = format!(
                    "\n\n--- 文件内容被截断 (已显示 {n} 行 / 共 {} 行，剩余 {rest} 行) ---",
                    all.len()
                );
                assert_eq!(shown, kept + &hint, "{text:?} {n}");
            } else {
                let pieces: Vec<&str> = text.split('\n').collect();
                let whole: Vec<String> = (0..pieces.len())
                    .map(|i| match pieces[i] {
                        "" if i + 1 == pieces.len() => String::new(),
                        piece => format!("{}\t{piece}", i + 1),
                    })
                    .collect();
                assert_eq!(shown, whole.join("\n"), "{text:?} {n}");
            }
        }
    }
}

#[test]
fn lines_have_their_numbers() {
    let tool = ReadFileTool::new(5);
    let shown = |text: &str| tool.report(&read_request("f", None), content(text)).content;
    assert_eq!(shown(""), "");
    assert_eq!(shown("a"), "1\ta");
    assert_eq!(shown("a\n\nb"), "1\ta\n2\t\n3\tb");
    assert_eq!(shown("a\r\nb\r\n"), "1\ta\r\n2\tb\r\n");
    let ten: String = (0..10).map(|_| "x\n").collect();
    assert!(shown(&ten).ends_with("\n9\tx\n10\tx\n"));
}

#[test]
fn limits_that_are_no_unsigned_numbers_do_not_count() {
    for input in [
        r#"{"path": "f", "limit": -1}"#,
        r#"{"path": "f", "limit": "3"}"#,
        r#"{"path": "f", "limit": 1.5}"#,
        r#"{"path": "f", "limit": null}"#,
        r#"{"path": "f"}"#,
    ] {
        assert_eq!(ReadFileTool::request(&json(input)).unwrap().limit, None);
    }
}

// ========== write_file ==========

#[test]
fn write_file_execute_empty_path_returns_error() {
    let result = WriteFileTool::request(&json(r#"{"content": "hello"}"#)).unwrap_err();
    assert!(result.is_error);
    assert!(result.content.contains("required"));
    assert_eq!(result.content, "Error: path parameter is required");
}

#[test]
fn execute_empty_content_returns_error() {
    let result = WriteFileTool::request(&json(r#"{"path": "/tmp/test.txt"}"#)).unwrap_err();
    assert!(result.is_error);
    assert!(result.content.contains("required"));
    assert_eq!(result.content, "Error: content parameter is required");
}

#[test]
fn execute_write_file_success() {
    let tool = WriteFileTool::new(5);
    let input = json(r#"{"path": "/work/target/out.txt", "content": "hello world"}"#);
    let request = WriteFileTool::request(&input).unwrap();
    assert_eq!(request.content, "hello world");
    assert!(tool.authorize(&request, &missing("/work", "target/out.txt")).is_none());
    let result = tool.report(&request, WriteOutcome::Written);
    assert!(!result.is_error);
    assert!(result.content.contains("成功写入"));
    assert_eq!(result.content, "成功写入文件: /work/target/out.txt");
}

#[test]
fn write_file_name_and_description() {
    let tool = WriteFileTool::default();
    assert_eq!(tool.name(), "write_file");
    assert!(tool.description().contains("Write"));
    assert_eq!(tool.timeout_secs(), 30);
}

#[test]
fn parameters_requires_path_and_content() {
    let tool = WriteFileTool::default();
    let params = tool.parameters().to_value();
    assert_eq!(params["type"], "object");
    let required: Vec<_> = params["required"]
        .as_array()
        .unwrap()
        .iter()
        .map(|v| v.as_str().unwrap())
        .collect();
    assert!(required.contains(&"path"));
    assert!(required.contains(&"content"));
    assert_eq!(
        tool.parameters().to_text(),
        r#"{"properties":{"content":{"type":"string"},"path":{"type":"string"}},"required":["path","content"],"type":"object"}"#
    );
}

#[test]
fn writing_outside_is_refused() {
    let tool = WriteFileTool::new(5);
    let request = WriteRequest { path: "../x".to_string(), content: "c".to_string() };
    let result = tool.authorize(&request, &missing("/", "x")).unwrap();
    assert!(result.is_error);
    assert!(!result.needs_approval);
    assert_eq!(result.content, "路径限制：文件 `../x` 不在当前工作目录内，不允许写入。");
}

#[test]
fn write_attempts_that_failed_are_reported() {
    let tool = WriteFileTool::new(3);
    let request = WriteRequest { path: "f".to_string(), content: "c".to_string() };
    let say = |outcome: WriteOutcome| {
        let result = tool.report(&request, outcome);
        assert!(result.is_error);
        result.content
    };
    assert_eq!(say(WriteOutcome::DirectoryFailed("d".to_string())), "创建目录失败: d");
    assert_eq!(say(WriteOutcome::TimedOut), "写入文件超时 (3s)");
    assert_eq!(say(WriteOutcome::NotFound), "文件不存在: f");
    assert_eq!(say(WriteOutcome::PermissionDenied), "没有权限写入: f");
    assert_eq!(
        say(WriteOutcome::InvalidData),
        "无法以文本方式写入，文件可能是二进制或非 UTF-8 编码: f"
    );
    assert_eq!(say(WriteOutcome::Failed("e".to_string())), "写入文件失败: e");
}

// ========== Outputs ==========

#[test]
fn outputs_are_what_they_are_called() {
    let ok = ToolOutput::ok("a".to_string());
    assert!(!ok.is_error && !ok.needs_approval && ok.approval_path.is_none());
    let error = ToolOutput::error("a".to_string());
    assert!(error.is_error && !error.needs_approval);
    let status = ToolOutput::ok_with_status("a".to_string(), true);
    assert!(status.is_error && status.content == "a");
    let approval = ToolOutput::approval("a".to_string(), "p".to_string());
    assert!(!approval.is_error && approval.needs_approval);
    assert_eq!(approval.clone().approval_path, Some("p".to_string()));
}

// ========== Paths ==========

#[test]
fn components_are_those_of_the_standard_library() {
    for path in [
        "", "/", "//", ".", "./", "./a", "a/./b", "a//b", "/a/b/", "..", "../a", "/..", "/./a", "a/.", "a/..", "./..",
        "...", "/a/../b", " a", "a b/c.txt", "文件/名",
    ] {
        let ours = path_components(path);
        let theirs: Vec<String> = std::path::Path::new(path)
            .components()
            .map(|c| match c {
                std::path::Component::RootDir => "<root>".to_string(),
                std::path::Component::CurDir => "<cur>".to_string(),
                std::path::Component::ParentDir => "<up>".to_string(),
                other => other.as_os_str().to_str().unwrap().to_string(),
            })
            .collect();
        assert_eq!(spelled(&ours), theirs.join(" "), "{path:?}");
    }
}

#[test]
fn normalizing_leaves_out_steps() {
    let normal = |path: &str| spelled(&normalize_path(&path_components(path)));
    assert_eq!(normal("/a/./b/../c"), "<root> a c");
    assert_eq!(normal("../a"), "a");
    assert_eq!(normal("/../a"), "a");
    assert_eq!(normal("./a"), "a");
    assert_eq!(normal("a/.."), "");
    let once = normalize_path(&path_components("x/../y/./z"));
    assert!(same_path(&normalize_path(&once), &once));
}

#[test]
fn prefixes_go_by_components() {
    let starts = |a: &str, b: &str| path_starts_with(&path_components(a), &path_components(b));
    assert!(starts("/work/a", "/work"));
    assert!(starts("/work", "/work"));
    assert!(!starts("/workshop", "/work"));
    assert!(!starts("/", "/work"));
    assert!(!same_path(&path_components("/a"), &path_components("a")));
}

#[test]
fn files_in_the_working_directory() {
    assert!(is_within_cwd("src/new.rs", &missing("/work/src", "new.rs")));
    assert!(is_within_cwd("./new.rs", &missing("/work", "new.rs")));
    assert!(is_within_cwd("/work/a/../b", &missing("/work", "a/../b")));
    assert!(!is_within_cwd("..", &existing("/work", "/")));
    assert!(!is_within_cwd("a/../../x", &missing("/work", "a/../../x")));
    assert!(!is_within_cwd("/etc/new", &missing("/etc", "new")));
    assert!(!is_within_cwd("/etc/passwd", &existing("/work", "/etc/passwd")));
    assert!(!is_within_cwd("link", &existing("/work", "/etc/passwd")));
    assert!(is_within_cwd("/elsewhere/link", &existing("/work", "/work/file")));
}

#[test]
fn links_do_not_lead_a_new_file_out() {
    assert!(!is_within_cwd("link/new.txt", &missing("/etc", "new.txt")));
    assert!(!is_within_cwd("link/deep/new.txt", &missing("/workshop", "deep/new.txt")));
    assert!(!is_within_cwd("a/new", &missing("/work/a", "../../new")));
    assert!(is_within_cwd("link/new.txt", &missing("/work/real", "new.txt")));
    let mut dangling = missing("/work", "new.txt");
    dangling.ancestor = None;
    assert!(!is_within_cwd("dangling", &dangling));

    let tool = WriteFileTool::new(5);
    let request = WriteRequest { path: "link/new.txt".to_string(), content: "c".to_string() };
    assert!(tool.authorize(&request, &missing("/work/real", "new.txt")).is_none());
    let refused = tool.authorize(&request, &missing("/etc", "new.txt")).unwrap();
    assert_eq!(refused.content, "路径限制：文件 `link/new.txt` 不在当前工作目录内，不允许写入。");
}

#[test]
fn without_a_working_directory_nothing_lies_in_it() {
    let mut lost = existing("/work", "/work/a");
    lost.cwd = None;
    assert!(!is_within_cwd("a", &lost));
    let mut unresolved = existing("/work", "/work/a");
    unresolved.resolved_cwd = None;
    assert!(!is_within_cwd("a", &unresolved));
}
