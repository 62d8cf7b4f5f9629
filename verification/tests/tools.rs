use autofix::config::PermissionMode;
use autofix::json::parse_json;
use autofix::tools::{
    approve, asks, command_report, confirm, duty_of, extract_tool_calls, git_command, git_report, json_block,
    parse_size, read_call, read_calls, Action, Approval, Duty, FileListing, ToolCall, ToolError,
    ToolRuntime,
};

fn tools(full: bool) -> ToolRuntime {
    ToolRuntime::new("/w".to_string(), PermissionMode::Ask, PermissionMode::Deny, full)
}

fn calls(answer: &str) -> Vec<String> {
    extract_tool_calls(answer).unwrap().iter().map(|c| c.summary()).collect()
}

#[test]
fn calls_are_summed_up() {
    let cases = [
        (ToolCall::ListFiles { path: None }, "list_files path=."),
        (ToolCall::ReadFile { path: "a".to_string() }, "read_file path=a"),
        (
            ToolCall::WriteFile { path: "a".to_string(), content: "é".to_string() },
            "write_file path=a bytes=2",
        ),
        (ToolCall::RunShell { command: "ls".to_string() }, "run_shell command=ls"),
        (
            ToolCall::WebSearch { query: "q".to_string(), max_results: None },
            "web_search query=q results=5",
        ),
        (
            ToolCall::SpawnWorker { name: None, task: " one \ntwo".to_string() },
            "spawn_worker name=worker task=one",
        ),
        (ToolCall::ListWorkers, "list_workers"),
        (ToolCall::ReadWorker { id: "x".to_string() }, "read_worker id=x"),
    ];
    for (call, text) in cases {
        assert_eq!(call.summary(), text);
    }
}

#[test]
fn fenced_calls_are_found() {
    assert_eq!(
        calls("first\n```json\n{\"tool\":\"read_file\",\"path\":\"src/main.rs\"}\n```\nlast"),
        ["read_file path=src/main.rs"]
    );
    assert_eq!(calls("no call"), Vec::<String>::new());
    assert_eq!(calls("```json\n{\"tool\":\"list_workers\"}"), Vec::<String>::new());
    assert_eq!(json_block("x```json a ```").as_deref(), Some(" a "));
}

#[test]
fn turns_of_the_protocol_make_their_calls_in_order() {
    assert_eq!(
        calls(r#"{"type":"tool_calls","calls":[{"tool":"read_file","path":"src/main.rs"},{"tool":"list_files","path":"src"}]}"#),
        ["read_file path=src/main.rs", "list_files path=src"]
    );
    for end in [
        r#"{"type":"final","summary":"Done."}"#,
        r#"{"type":"blocked","reason":"x"}"#,
        r#"{"type":"needs_worker","task":"x"}"#,
        r#"{"type":"other"}"#,
        r#"{"tool":"list_workers"}"#,
        "42",
    ] {
        assert_eq!(calls(end), Vec::<String>::new());
    }
    let err = extract_tool_calls(r#"{"type":"tool_calls","calls":[{"tool":"nope"}]}"#).unwrap_err();
    assert!(err.message().starts_with("failed to parse tool call JSON: {\"type\""));
}

#[test]
fn broken_calls_are_errors() {
    let err = extract_tool_calls("```json\n{\"tool\":\"read_file\"}\n```").unwrap_err();
    assert_eq!(
        err.message(),
        "failed to parse tool call JSON: \n{\"tool\":\"read_file\"}\n"
    );
    let err = extract_tool_calls("```json\n{oops\n```").unwrap_err();
    assert!(!err.cause.is_empty());
    assert_eq!(err.text, "\n{oops\n");
}

#[test]
fn arguments_are_checked() {
    let read = |text: &str| read_call(&parse_json(text).unwrap()).map(|c| c.summary());
    assert_eq!(
        read(r#"{"tool":"web_search","query":"q","max_results":3}"#).as_deref(),
        Some("web_search query=q results=3")
    );
    assert_eq!(read(r#"{"tool":"web_search","query":"q","max_results":-3}"#), None);
    assert_eq!(read(r#"{"tool":"web_search","query":"q","max_results":3.5}"#), None);
    assert_eq!(
        read(r#"{"tool":"list_files","path":null,"more":1}"#).as_deref(),
        Some("list_files path=.")
    );
    assert_eq!(read(r#"{"tool":"list_files","path":7}"#), None);
    assert_eq!(read(r#"{"tool":"write_file","path":"p"}"#), None);
    assert_eq!(
        read(r#"{"tool":"spawn_worker","task":"t","name":"n"}"#).as_deref(),
        Some("spawn_worker name=n task=t")
    );
    assert_eq!(read(r#"{"tool":"read_worker","id":"i"}"#).as_deref(), Some("read_worker id=i"));
    assert_eq!(
        read(r#"{"tool":"run_shell","command":"c"}"#).as_deref(),
        Some("run_shell command=c")
    );
    assert_eq!(read("[]"), None);
    assert!(read_calls(&parse_json("{}").unwrap()).is_none());
    assert_eq!(parse_size("0"), Some(0));
    assert_eq!(parse_size(&usize::MAX.to_string()), Some(usize::MAX));
    assert_eq!(parse_size("18446744073709551616"), None);
    assert_eq!(parse_size(""), None);
    assert_eq!(parse_size("1a"), None);
}

#[test]
fn calls_become_actions() {
    let t = tools(false);
    match t.execute(ToolCall::ListFiles { path: None }) {
        Ok(Action::ListFiles { path }) => assert_eq!(path, "."),
        other => panic!("{other:?}"),
    }
    match t.execute(ToolCall::WebSearch { query: "q".to_string(), max_results: None }) {
        Ok(Action::WebSearch { query, max_results }) => {
            assert_eq!((query.as_str(), max_results), ("q", 5));
        }
        other => panic!("{other:?}"),
    }
    for call in [
        ToolCall::ListWorkers,
        ToolCall::ReadWorker { id: "x".to_string() },
        ToolCall::SpawnWorker { name: None, task: "t".to_string() },
    ] {
        let err = t.execute(call).unwrap_err();
        assert_eq!(err.message(), "agent orchestration tools must be handled by the master agent");
    }
}

#[test]
fn confined_paths_stay_in_the_workspace() {
    let t = tools(false);
    assert_eq!(t.anchor("src/main.rs").as_deref(), Some("/w/src"));
    assert_eq!(t.anchor("x").as_deref(), Some("/w"));
    assert_eq!(t.anchor(".").as_deref(), Some("/w/."));
    assert_eq!(t.anchor("..").as_deref(), Some("/w/.."));
    assert_eq!(t.anchor("a/../..").as_deref(), Some("/w/a/../.."));
    assert_eq!(t.anchor("/etc/passwd"), None);

    assert_eq!(t.resolve_path("src/main.rs", Ok("/w/src".to_string())).unwrap(), "/w/src/main.rs");
    assert_eq!(t.resolve_path(".", Ok("/w".to_string())).unwrap(), "/w/.");
    let err = t.resolve_path("..", Ok("/".to_string())).unwrap_err();
    assert_eq!(err.message(), "path escapes workspace: ..");
    let err = t.resolve_path("a/x", Ok("/wide".to_string())).unwrap_err();
    assert!(matches!(err, ToolError::Escapes { .. }));
    let err = t.resolve_path("/etc", Ok("/".to_string())).unwrap_err();
    assert_eq!(
        err.message(),
        "absolute paths are not allowed without --full-system-access: /etc"
    );
    let err = t.resolve_path("no/x", Err("gone".to_string())).unwrap_err();
    assert_eq!(err.message(), "path parent is not accessible: /w/no");
    assert!(matches!(err, ToolError::Inaccessible { cause, .. } if cause == "gone"));
}

#[test]
fn full_access_reaches_beyond() {
    let t = tools(true);
    assert!(t.full_system_access());
    assert_eq!(t.resolve_path("/etc", Err("unused".to_string())).unwrap(), "/etc");
    assert_eq!(t.resolve_path("../x", Ok("/".to_string())).unwrap(), "/w/../x");
}

#[test]
fn approval_follows_the_mode() {
    assert_eq!(approve(PermissionMode::Allow, "no"), Approval::Approved);
    assert_eq!(approve(PermissionMode::Deny, "yes"), Approval::Denied);
    assert_eq!(approve(PermissionMode::Ask, " yes\n"), Approval::Approved);
    assert_eq!(approve(PermissionMode::Ask, "Yes"), Approval::Cancelled);
    assert!(confirm("Y") && confirm("YES") && confirm("y") && !confirm(""));
    assert!(asks(PermissionMode::Ask) && !asks(PermissionMode::Deny));
    let mut t = tools(false);
    assert_eq!(t.write_refusal("y").as_deref(), Some("write denied by permission mode"));
    assert_eq!(t.shell_refusal("n").as_deref(), Some("shell command cancelled by user"));
    assert_eq!(t.git_refusal("n").as_deref(), Some("git command cancelled by user"));
    assert_eq!(t.shell_refusal("y"), None);
    t.set_write_permission(PermissionMode::Allow);
    t.set_shell_permission(PermissionMode::Deny);
    assert_eq!(t.write_refusal(""), None);
    assert_eq!(t.shell_refusal("y").as_deref(), Some("shell command denied by permission mode"));
    assert_eq!(t.write_permission(), PermissionMode::Allow);
    assert_eq!(t.shell_permission(), PermissionMode::Deny);
}

#[test]
fn questions_and_reports_are_worded() {
    let t = tools(false);
    let args = vec!["status".to_string(), "-s".to_string()];
    assert_eq!(t.write_question("/w/a"), "write /w/a?");
    assert_eq!(t.write_report("/w/a"), "wrote /w/a");
    assert_eq!(t.shell_question("ls"), "run shell command `ls`?");
    assert_eq!(git_command(&args), "git status -s");
    assert_eq!(t.git_question(&args), "run git command `git status -s`?");
    assert_eq!(
        command_report("exit status: 0", b"out", b"\xff"),
        "status: exit status: 0\nstdout:\nout\nstderr:\n\u{fffd}"
    );
    assert_eq!(
        git_report(true, "0", b"o", b"e"),
        Ok("status: 0\nstdout:\no\nstderr:\ne".to_string())
    );
    assert_eq!(
        git_report(false, "1", b"o", b"e"),
        Err("git command failed: 1\nstdout:\no\nstderr:\ne".to_string())
    );
}

#[test]
fn listings_are_relative_and_bounded() {
    let t = tools(false);
    let entries = vec![
        ("/w/.".to_string(), true),
        ("/w/./a".to_string(), false),
        ("/w/b".to_string(), true),
        ("/else/c".to_string(), false),
    ];
    assert_eq!(t.list_files(&entries), "a\nb/\n/else/c");
    let mut listing = FileListing::new("/w");
    for i in 0..199 {
        assert!(!listing.add(&format!("/w/{i}"), false));
    }
    assert!(listing.add("/w/last", false));
    assert!(listing.add("/w/more", false));
    let text = listing.text();
    assert_eq!(text.lines().count(), 201);
    assert!(text.ends_with("last\n... truncated at 200 entries"));
}

#[test]
fn turns_are_read_before_blocks_inside_them() {
    let turn = r#"{"type":"tool_calls","calls":[{"tool":"write_file","path":"a.md","content":"```json\n{oops\n```"},{"tool":"read_file","path":"b"}]}"#;
    let found = extract_tool_calls(turn).unwrap();
    assert_eq!(found.len(), 2);
    assert!(matches!(&found[0], ToolCall::WriteFile { path, content }
        if path == "a.md" && content == "```json\n{oops\n```"));
    assert!(matches!(&found[1], ToolCall::ReadFile { path } if path == "b"));
    let ended = r#"{"type":"final","summary":"see ```json\n{\"tool\":\"list_files\"}\n```"}"#;
    assert!(extract_tool_calls(ended).unwrap().is_empty());
    assert_eq!(calls("so:\n```json\n{\"tool\":\"list_files\"}\n```"), ["list_files path=."]);
}

#[test]
fn unreadable_calls_say_why() {
    let err = extract_tool_calls("```json\n{\"tool\":\"nope\"}\n```").unwrap_err();
    assert_eq!(err.text, "\n{\"tool\":\"nope\"}\n");
    assert_eq!(err.cause, "not a tool call");
    let err = extract_tool_calls("```json\n{oops\n```").unwrap_err();
    assert_eq!(err.cause, parse_json("{oops").unwrap_err());
}

#[test]
fn worker_calls_are_the_agents() {
    let spawn = ToolCall::SpawnWorker { name: None, task: "t".to_string() };
    assert!(matches!(duty_of(spawn), Duty::Spawn { name, task } if name == "worker" && task == "t"));
    assert!(matches!(duty_of(ToolCall::ListWorkers), Duty::ListWorkers));
    let read = ToolCall::ReadWorker { id: "w".to_string() };
    assert!(matches!(duty_of(read), Duty::ReadWorker { id } if id == "w"));
    let list = ToolCall::ListFiles { path: None };
    match duty_of(list) {
        Duty::Tool(call) => assert!(tools(false).execute(call).is_ok()),
        other => panic!("{other:?}"),
    }
}
