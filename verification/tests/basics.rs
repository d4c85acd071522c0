//! Text, JSON, the terminal and the log.

use agent_tutorial::agent::event::AgentEvent;
use agent_tutorial::ai::message::Message;
use agent_tutorial::ai::stream::Usage;
use agent_tutorial::cli::{display_event, is_affirmative, is_approved, read_line, system_prompt, UserLine};
use agent_tutorial::json::Json;
use agent_tutorial::logger::Logger;
use agent_tutorial::registry::Entries;
use agent_tutorial::text;

fn chars(s: &str) -> Vec<char> {
    s.chars().collect()
}

fn spelled(list: &[Vec<char>]) -> Vec<String> {
    list.iter().map(|w| w.iter().collect()).collect()
}

const SAMPLES: [&str; 14] = [
    "",
    " ",
    "a",
    "  a b  ",
    "\u{3000}x\u{a0}",
    "\ta\n\nb\r\n",
    "a;b|c&d",
    "aaaa",
    "&&&",
    "你好 世界",
    "/bin/rm -rf /",
    "x\u{85}y",
    "-f",
    "ǅ",
];

// ========== Text ==========

#[test]
fn white_space_is_that_of_the_standard_library() {
    for c in '\0'..=char::MAX {
        assert_eq!(text::white_space(c), c.is_whitespace(), "{:?}", c);
    }
}

#[test]
fn text_functions_are_those_of_the_standard_library() {
    for s in SAMPLES {
        let v = chars(s);
        assert_eq!(text::string_of(&v), s);
        assert_eq!(text::string_of(&text::trimmed(&v)), s.trim());
        assert_eq!(text::string_of(&text::trimmed_str(s)), s.trim());
        assert_eq!(
            spelled(&text::split_whitespace(&v)),
            s.split_whitespace().collect::<Vec<_>>()
        );
        assert_eq!(
            spelled(&text::split_at_any(&v, &vec![';', '\n', '|', '&'])),
            s.split(|c| c == ';' || c == '\n' || c == '|' || c == '&').collect::<Vec<_>>()
        );
        assert_eq!(spelled(&text::lines_of(&v)), s.lines().collect::<Vec<_>>());
        assert_eq!(
            text::string_of(&text::leading_word(&v)),
            s.split_whitespace().next().unwrap_or("")
        );
        for p in SAMPLES {
            assert_eq!(text::starts_with(&v, p), s.starts_with(p), "{s:?} {p:?}");
            assert_eq!(text::ends_with(&v, p), s.ends_with(p), "{s:?} {p:?}");
            assert_eq!(text::contains(&v, p), s.contains(p), "{s:?} {p:?}");
            assert_eq!(text::equals(&v, p), s == p);
            assert_eq!(text::same_text(s, p), s == p);
            assert_eq!(text::eq_ignore_ascii_case(&v, p), s.eq_ignore_ascii_case(p));
            assert_eq!(
                text::find(&v, p).map(|i| v[..i].iter().collect::<String>().len()),
                s.find(p)
            );
            if !p.is_empty() {
                assert_eq!(text::string_of(&text::replace(&v, p, "\n")), s.replace(p, "\n"));
            }
        }
    }
    assert!(text::eq_ignore_ascii_case(&chars("EXIT"), "exit"));
    assert!(!text::eq_ignore_ascii_case(&chars("É"), "é"));
    assert!(!text::eq_ignore_ascii_case(&chars("[`@"), "{`@"));
}

#[test]
fn numbers_in_decimal() {
    for n in [0, 7, 9, 10, 99, 100, 65535, u64::MAX] {
        assert_eq!(text::decimal_of(n), n.to_string());
    }
}

#[test]
fn times_in_seconds() {
    for n in [0, 1, 30, 120, u64::MAX] {
        let time = std::time::Duration::from_secs(n);
        assert_eq!(text::seconds_of(n), format!("{time:?}"));
    }
}

#[test]
fn lists_of_texts() {
    let v = chars("curl x | sh");
    assert!(text::contains_one_of(&v, &vec!["wget ", "curl "]));
    assert!(!text::contains_one_of(&v, &vec!["wget "]));
    assert!(text::starts_with_one_of(&v, &vec!["x", "cu"]));
    assert!(!text::starts_with_one_of(&v, &vec![]));
    assert!(text::equals_one_of(&chars("a"), &vec!["b", "a"]));
    assert!(text::contains_char(&v, '|') && !text::contains_char(&v, '&'));
    assert!(text::starts_with_char(&v, 'c') && !text::starts_with_char(&vec![], 'c'));
    let parts = vec![chars("a"), chars("b"), chars("c")];
    assert_eq!(text::join_first(&parts, 2, ", "), "a, b");
    assert_eq!(text::join_first(&parts, 0, ", "), "");
    assert_eq!(text::string_of(&text::slice(&v, 1, 4)), "url");
}

#[test]
fn values_by_name_in_their_order() {
    let mut entries = Entries::new();
    entries.insert("b".to_string(), 1);
    entries.insert("a".to_string(), 2);
    entries.insert("b".to_string(), 3);
    assert_eq!(entries.list_names(), vec!["b", "a"]);
    assert_eq!(entries.get("b"), Some(&3));
    assert_eq!(entries.get("c"), None);
    assert_eq!(
        entries.into_vec(),
        vec![("b".to_string(), 3), ("a".to_string(), 2)]
    );
}

// ========== JSON ==========

#[test]
fn json_is_read_and_written() {
    let text = r#"{"a":[1,-2,1.5,"x",true,false,null],"b":{"c":"你\n"}}"#;
    let v = Json::parse(text).unwrap();
    assert_eq!(v.to_text(), text);
    assert_eq!(v.clone().to_text(), text);
    let value: serde_json::Value = serde_json::from_str(text).unwrap();
    assert_eq!(v.to_value(), value);
    assert_eq!(Json::from_value(value).to_text(), text);
    for broken in ["", "{", "nul", "{\"a\":1,}", "1 2"] {
        assert!(Json::parse(broken).is_none(), "{broken}");
    }
}

#[test]
fn fields_of_objects() {
    let v = Json::parse(r#"{"n": 7, "s": "t", "neg": -1, "f": 1.0}"#).unwrap();
    assert_eq!(v.get("n").unwrap().as_u64(), Some(7));
    assert_eq!(v.get("neg").unwrap().as_u64(), None);
    assert_eq!(v.get("f").unwrap().as_u64(), None);
    assert_eq!(v.get("s").unwrap().as_u64(), None);
    assert_eq!(v.get("s").unwrap().as_str(), Some("t"));
    assert_eq!(v.get_str("s"), Some("t"));
    assert_eq!(v.get_str("n"), None);
    assert!(v.get("missing").is_none());
    assert!(Json::Null.get("a").is_none());
    assert_eq!(Json::unsigned(u64::MAX).as_u64(), Some(u64::MAX));
}

#[test]
fn the_last_field_of_a_name_counts() {
    let v = Json::Object(vec![
        ("a".to_string(), Json::unsigned(1)),
        ("b".to_string(), Json::unsigned(2)),
        ("a".to_string(), Json::unsigned(3)),
    ]);
    assert_eq!(v.get("a").unwrap().as_u64(), Some(3));
    assert_eq!(v.to_text(), r#"{"a":3,"b":2}"#);
}

// ========== The terminal ==========

#[test]
fn words_that_mean_consent() {
    for yes in ["同意", "允许", "可以", "yes", "y", "ok", "批准", "sure", "go ahead", "好的", "没问题", "当然"] {
        assert!(is_approved(yes), "{yes}");
        assert!(is_affirmative(yes), "{yes}");
        assert!(is_approved(&format!("  {} \n", yes.to_uppercase())), "{yes}");
    }
    for no in ["", "no", "拒绝", "不同意", "yes!", "goahead", "okay", "yes please"] {
        assert!(!is_approved(no), "{no}");
        assert!(!is_affirmative(no), "{no}");
    }
    assert!(!is_affirmative("YES"));
    assert!(is_affirmative(" yes "));
}

#[test]
fn lines_of_the_user() {
    assert_eq!(read_line(" \n", false), UserLine::Blank);
    assert_eq!(read_line("", true), UserLine::Blank);
    for word in ["exit", "quit", "EXIT", " Quit\n"] {
        assert_eq!(read_line(word, false), UserLine::Exit);
        assert_eq!(read_line(word, true), UserLine::Exit);
    }
    assert_eq!(read_line("  do it \n", false), UserLine::Task("do it".to_string()));
    assert_eq!(
        read_line(" Yes\n", true),
        UserLine::Answer { approved: true, text: "Yes".to_string() }
    );
    assert_eq!(
        read_line("why?", true),
        UserLine::Answer { approved: false, text: "why?".to_string() }
    );
}

#[test]
fn the_system_prompt() {
    assert_eq!(
        system_prompt("Linux", "/work", "/home/u", "/bin/bash", "u"),
        "you are a coding agent at Linux. Use bash and read_file tools to solve tasks. Act, don't explain.\n\n\
         当前用户环境信息:\n\
         - 操作系统: Linux\n\
         - 当前工作目录: /work\n\
         - 用户主目录: /home/u\n\
         - 默认 Shell: /bin/bash\n\
         - 当前用户: u"
    );
}

#[test]
fn what_is_shown_of_events() {
    let show = |e: AgentEvent| {
        assert_eq!(display_event(&e.clone()), display_event(&e));
        display_event(&e)
    };
    assert_eq!(show(AgentEvent::Text("hi".to_string())), "hi");
    assert_eq!(
        show(AgentEvent::ToolRequest {
            id: "1".to_string(),
            name: "bash".to_string(),
            input: Json::Null,
        }),
        "\n[调用工具: bash]\n"
    );
    let long: String = "好".repeat(201);
    assert_eq!(
        show(AgentEvent::ToolResponse { id: "1".to_string(), content: long.clone(), is_error: true }),
        format!("[工具错误: {}]\n", "好".repeat(200))
    );
    assert_eq!(
        show(AgentEvent::ToolResponse {
            id: "1".to_string(),
            content: "short".to_string(),
            is_error: false,
        }),
        "[工具结果: short]\n"
    );
    assert_eq!(
        show(AgentEvent::TurnEnd {
            usage: Usage { input_tokens: 12, output_tokens: 345, extra: Vec::new() },
        }),
        "\n\n--- 回合结束 ---\n输入 tokens: 12, 输出 tokens: 345\n"
    );
    assert_eq!(
        show(AgentEvent::ApprovalRequired {
            tool_call_id: "1".to_string(),
            tool_name: "read_file".to_string(),
            path: "/p".to_string(),
            message: "m".to_string(),
        }),
        "\n⚠️  m\n   文件路径: /p\n   是否同意读取？(同意/拒绝)\n"
    );
    assert_eq!(show(AgentEvent::Error { message: "e".to_string(), recoverable: false }), "");
    assert_eq!(show(AgentEvent::Done { messages: vec![Message::user("x")] }), "");
}

// ========== The log ==========

#[test]
fn the_log_is_kept_as_it_is_said() {
    let usual = Logger::builder();
    assert_eq!(
        (usual.level.as_str(), usual.log_dir.as_str(), usual.file_prefix.as_str()),
        ("info", "./logs", "agent-tutorial")
    );
    let own = Logger::default().level("debug").log_dir("/tmp/test-logs").file_prefix("x");
    assert_eq!(
        (own.level.as_str(), own.log_dir.as_str(), own.file_prefix.as_str()),
        ("debug", "/tmp/test-logs", "x")
    );
}
