use devhaven::codex_monitor::{
    build_date_dir, build_monitor_events, codex_rollout_file_open_by_codex, initial_tail_bytes,
    is_codex_process, is_stale, next_tail_bytes, read_tail_lines, settle_working,
    should_refresh, tail_read_start, MonitorRuntime, SessionTracker,
};
use devhaven::codex_session::{
    build_function_call_details, entry_indicates_error, entry_indicates_needs_attention,
    extract_message_preview, extract_user_message_text, parse_session_file, parse_timestamp,
    process_entry, process_line, read_session_meta, value_to_preview_text, SessionMeta,
};
use devhaven::json::Json;
use devhaven::models::{
    CodexAgentEventType, CodexMonitorSession, CodexMonitorSnapshot, CodexMonitorState,
};

const META: &str = r#"{"timestamp":"2026-01-28T05:07:13.570Z","type":"session_meta","payload":{"id":"abc","timestamp":"2026-01-28T05:07:13.545Z","cwd":"/tmp/project","cli_version":"0.92.0"}}"#;

fn millis(text: &str) -> i64 {
    chrono::DateTime::parse_from_rfc3339(text).expect("parse now").timestamp_millis()
}

fn parse(lines: &[&str], now: &str) -> CodexMonitorSession {
    let tail: Vec<String> = lines.iter().map(|line| line.to_string()).collect();
    parse_session_file(lines[0], &tail, Some("rollout-test"), None, millis(now), true)
        .expect("parse session")
}

#[test]
fn parse_session_file_marks_working_when_pending_turn_is_streaming() {
    let session = parse(
        &[
            META,
            r#"{"timestamp":"2036-01-28T05:08:13.000Z","type":"event_msg","payload":{"type":"user_message","message":"hi"}}"#,
            r#"{"timestamp":"2036-01-28T05:08:14.000Z","type":"event_msg","payload":{"type":"agent_reasoning"}}"#,
        ],
        "2036-01-28T05:08:15.000Z",
    );
    assert_eq!(session.state, CodexMonitorState::Working);
    assert!(session.is_running);
}

#[test]
fn parse_session_file_marks_completed_after_assistant_reply() {
    let session = parse(
        &[
            META,
            r#"{"timestamp":"2036-01-28T05:08:13.000Z","type":"event_msg","payload":{"type":"user_message","message":"hi"}}"#,
            r#"{"timestamp":"2036-01-28T05:08:14.000Z","type":"response_item","payload":{"type":"message","role":"assistant","content":"done"}}"#,
        ],
        "2036-01-28T05:08:15.500Z",
    );
    assert_eq!(session.state, CodexMonitorState::Completed);
    assert!(!session.is_running);
}

#[test]
fn parse_session_file_marks_needs_attention_for_request_user_input() {
    let session = parse(
        &[
            META,
            r#"{"timestamp":"2036-01-28T05:08:13.000Z","type":"response_item","payload":{"type":"function_call","name":"request_user_input","arguments":"{}"}}"#,
        ],
        "2036-01-28T05:08:20.000Z",
    );
    assert_eq!(session.state, CodexMonitorState::NeedsAttention);
}

#[test]
fn parse_session_file_marks_error_when_function_call_output_failed() {
    let session = parse(
        &[
            META,
            r#"{"timestamp":"2036-01-28T05:08:13.000Z","type":"response_item","payload":{"type":"function_call_output","is_error":true,"output":"failed"}}"#,
        ],
        "2036-01-28T05:08:20.000Z",
    );
    assert_eq!(session.state, CodexMonitorState::Error);
}

#[test]
fn parse_session_file_extracts_model_and_effort_from_turn_context() {
    let session = parse(
        &[
            META,
            r#"{"timestamp":"2036-01-28T05:08:13.000Z","type":"turn_context","payload":{"model":"gpt-5-codex","effort":"xhigh"}}"#,
        ],
        "2036-01-28T05:08:20.000Z",
    );
    assert_eq!(session.model.as_deref(), Some("gpt-5-codex"));
    assert_eq!(session.effort.as_deref(), Some("xhigh"));
}

#[test]
fn session_carries_what_the_log_says() {
    let session = parse(
        &[
            META,
            r#"{"timestamp":"2036-01-28T05:08:13.000Z","type":"event_msg","payload":{"type":"user_message","message":"  please fix the flaky test in the parser module today  "}}"#,
            r#"{"timestamp":"2036-01-28T05:08:14.000Z","type":"response_item","payload":{"type":"function_call","name":"shell_command","arguments":"{\"command\":\"cargo test\"}"}}"#,
        ],
        "2036-01-28T05:08:15.000Z",
    );
    assert_eq!(session.id, "abc");
    assert_eq!(session.cwd, "/tmp/project");
    assert_eq!(session.cli_version, Some("0.92.0".to_string()));
    assert_eq!(session.started_at, millis("2026-01-28T05:07:13.545Z"));
    assert_eq!(session.last_activity_at, millis("2036-01-28T05:08:14.000Z"));
    assert_eq!(
        session.session_title,
        Some("please fix the flaky test in the parser mo…".to_string())
    );
    assert_eq!(session.state, CodexMonitorState::Working);
    assert_eq!(session.details, Some("运行中".to_string()));
}

#[test]
fn session_meta_is_checked() {
    assert_eq!(read_session_meta("  ", None, None), Err("会话文件为空".to_string()));
    let broken = read_session_meta("{", None, None).expect_err("not json");
    assert!(broken.starts_with("解析会话首行失败: "));
    assert!(broken.len() > "解析会话首行失败: ".len());
    assert_eq!(
        read_session_meta(r#"{"type":"event_msg"}"#, None, None),
        Err("会话首行不是 session_meta".to_string())
    );
    assert_eq!(
        read_session_meta(r#"{"type":"session_meta"}"#, None, None),
        Err("session_meta 缺少 payload".to_string())
    );
    assert_eq!(
        read_session_meta(r#"{"type":"session_meta","payload":{"id":""}}"#, None, Some(5)),
        Err("session_meta 缺少 id".to_string())
    );
    assert_eq!(
        read_session_meta(r#"{"type":"session_meta","payload":{}}"#, Some("rollout-x"), Some(5)),
        Ok(SessionMeta {
            id: "rollout-x".to_string(),
            cwd: String::new(),
            cli_version: None,
            started_at: 5,
        })
    );
    assert_eq!(
        read_session_meta(
            r#"{"timestamp":"1970-01-01T00:00:02Z","type":"session_meta","payload":{"id":"a"}}"#,
            None,
            None
        ),
        Ok(SessionMeta {
            id: "a".to_string(),
            cwd: String::new(),
            cli_version: None,
            started_at: 2000,
        })
    );
    assert_eq!(
        read_session_meta(r#"{"type":"session_meta","payload":{"id":"a"}}"#, None, None)
            .map(|meta| meta.started_at),
        Ok(0)
    );
}

fn text(s: &str) -> Json {
    Json::Text(s.to_string())
}

fn object(members: Vec<(&str, Json)>) -> Json {
    let mut members: Vec<(String, Json)> =
        members.into_iter().map(|(k, v)| (k.to_string(), v)).collect();
    members.sort_by(|a, b| a.0.cmp(&b.0));
    Json::Object(members)
}

#[test]
fn timestamps_are_read_by_chrono() {
    assert_eq!(parse_timestamp(&text("1970-01-01T00:00:01.500Z")), Some(1500));
    assert_eq!(parse_timestamp(&text("1970-01-01T01:00:00+01:00")), Some(0));
    assert_eq!(parse_timestamp(&text("yesterday")), None);
    assert_eq!(parse_timestamp(&Json::Number("5".to_string())), None);
}

#[test]
fn previews_take_the_first_text() {
    assert_eq!(value_to_preview_text(&text("  hi  ")), Some("hi".to_string()));
    assert_eq!(value_to_preview_text(&text("   ")), None);
    assert_eq!(value_to_preview_text(&Json::Null), None);
    let items = Json::Array(vec![
        object(vec![("text", text(" "))]),
        object(vec![("content", text(" second "))]),
        object(vec![("text", text("third"))]),
    ]);
    assert_eq!(value_to_preview_text(&items), Some("second".to_string()));
    let nested = object(vec![
        ("output", text("last")),
        ("message", object(vec![("content", object(vec![("text", text("deep"))]))])),
    ]);
    assert_eq!(value_to_preview_text(&nested), Some("deep".to_string()));
    let payload = object(vec![("content", text("c")), ("output", text("o"))]);
    assert_eq!(extract_message_preview(&payload), Some("c".to_string()));
    let user = object(vec![("message", text(" ")), ("text", text(" typed ")), ("content", text("c"))]);
    assert_eq!(extract_user_message_text(&user), Some("typed".to_string()));
    assert_eq!(extract_user_message_text(&object(vec![("output", text("o"))])), Some("o".to_string()));
}

#[test]
fn errors_and_attention_are_read_from_the_serialization() {
    assert!(entry_indicates_error(&object(vec![("is_error", Json::Bool(true))])));
    assert!(!entry_indicates_error(&object(vec![("is_error", Json::Bool(false))])));
    assert!(entry_indicates_error(&object(vec![("error", text("x"))])));
    assert!(entry_indicates_error(&object(vec![("status", text("Build FAILED"))])));
    assert!(entry_indicates_error(&text("Traceback (most recent call last)")));
    assert!(!entry_indicates_error(&object(vec![("status", text("errors: 0"))])));
    assert!(entry_indicates_needs_attention(&object(vec![("kind", text("Needs_Attention"))])));
    assert!(entry_indicates_needs_attention(&text("waiting for approval")));
    assert!(!entry_indicates_needs_attention(&text("all good")));
}

#[test]
fn function_calls_are_described() {
    let call = |name: &str, arguments: Json| object(vec![("name", text(name)), ("arguments", arguments)]);
    assert_eq!(build_function_call_details(&object(vec![])), None);
    assert_eq!(
        build_function_call_details(&call("shell_command", text(r#"{"command":"ls -la"}"#))),
        Some("shell: ls -la".to_string())
    );
    assert_eq!(
        build_function_call_details(&call(
            "shell_command",
            object(vec![("command", text("cargo build"))])
        )),
        Some("shell: cargo build".to_string())
    );
    assert_eq!(
        build_function_call_details(&call("shell_command", text("not json"))),
        Some("shell_command".to_string())
    );
    assert_eq!(
        build_function_call_details(&call("apply_patch", Json::Null)),
        Some("Applying patch".to_string())
    );
    assert_eq!(
        build_function_call_details(&call("read_file", object(vec![("path", text("/a/b/c.rs"))]))),
        Some("read_file: c.rs".to_string())
    );
    assert_eq!(
        build_function_call_details(&call("read_file", object(vec![("file", text("notes.md"))]))),
        Some("read_file: notes.md".to_string())
    );
    assert_eq!(
        build_function_call_details(&call("read_file", object(vec![("path", text(".."))]))),
        Some("read_file: ..".to_string())
    );
    assert_eq!(
        build_function_call_details(&call("list", text("  "))),
        Some("list".to_string())
    );
}

fn fresh() -> SessionTracker {
    SessionTracker {
        last_activity_at: 0,
        last_user_ts: 0,
        last_assistant_ts: 0,
        last_abort_ts: 0,
        last_agent_activity_ts: 0,
        last_error_ts: 0,
        last_needs_attention_ts: 0,
        session_title: None,
        details: None,
        model: None,
        effort: None,
    }
}

#[test]
fn entries_move_the_tracker() {
    let mut tracker = fresh();
    process_line(
        r#"{"timestamp":"1970-01-01T00:00:10Z","type":"event_msg","payload":{"type":"user_message","message":"hello"}}"#,
        &mut tracker,
    );
    assert_eq!(tracker.last_activity_at, 10_000);
    assert_eq!(tracker.last_user_ts, 10_000);
    assert_eq!(tracker.session_title, Some("hello".to_string()));
    assert_eq!(tracker.details, Some("Processing user message".to_string()));

    process_line(
        r#"{"type":"event_msg","payload":{"timestamp":"1970-01-01T00:00:11Z","type":"agent_message","message":"hi there"}}"#,
        &mut tracker,
    );
    assert_eq!(tracker.last_assistant_ts, 11_000);
    assert_eq!(tracker.last_agent_activity_ts, 11_000);
    assert_eq!(tracker.details, Some("hi there".to_string()));

    process_line(
        r#"{"timestamp":"1970-01-01T00:00:05Z","type":"event_msg","payload":{"type":"turn_aborted"}}"#,
        &mut tracker,
    );
    assert_eq!(tracker.last_abort_ts, 5_000);
    assert_eq!(tracker.last_activity_at, 11_000);
    assert_eq!(tracker.details, Some("任务已中止".to_string()));

    process_line(
        r#"{"timestamp":"1970-01-01T00:00:12Z","type":"event_msg","payload":{"type":"error","message":"boom"}}"#,
        &mut tracker,
    );
    assert_eq!(tracker.last_error_ts, 12_000);
    assert_eq!(tracker.details, Some("错误: boom".to_string()));

    process_line(
        r#"{"timestamp":"1970-01-01T00:00:13Z","type":"event_msg","payload":{"type":"awaiting_user_input"}}"#,
        &mut tracker,
    );
    assert_eq!(tracker.last_needs_attention_ts, 13_000);
    assert_eq!(tracker.details, Some("等待用户处理".to_string()));

    process_line(
        r#"{"timestamp":"1970-01-01T00:00:14Z","type":"response_item","payload":{"type":"message","role":"user","content":[{"text":"second"}]}}"#,
        &mut tracker,
    );
    assert_eq!(tracker.last_user_ts, 14_000);
    assert_eq!(tracker.session_title, Some("hello".to_string()));

    process_line(
        r#"{"timestamp":"1970-01-01T00:00:15Z","type":"response_item","payload":{"type":"function_call","name":"ask_Approval","arguments":{"path":"/x/y.txt"}}}"#,
        &mut tracker,
    );
    assert_eq!(tracker.last_agent_activity_ts, 15_000);
    assert_eq!(tracker.last_needs_attention_ts, 15_000);
    assert_eq!(tracker.details, Some("ask_Approval: y.txt".to_string()));

    process_line(
        r#"{"timestamp":"1970-01-01T00:00:16Z","type":"something_else","status":"failed"}"#,
        &mut tracker,
    );
    assert_eq!(tracker.last_error_ts, 16_000);
    assert_eq!(tracker.details, Some("ask_Approval: y.txt".to_string()));

    let before = tracker.clone();
    process_line("", &mut tracker);
    process_line("not json", &mut tracker);
    process_line(r#"{"type":"turn_context"}"#, &mut tracker);
    assert_eq!(tracker, before);
}

#[test]
fn entries_of_unknown_kind_are_read_for_what_they_say() {
    let mut tracker = fresh();
    let entry = object(vec![
        ("type", text("event_msg")),
        ("payload", object(vec![("type", text("custom")), ("note", text("approval failed"))])),
    ]);
    process_entry(&entry, &mut tracker);
    assert_eq!(tracker.details, Some("任务执行出现错误".to_string()));
    assert_eq!(tracker.last_error_ts, 0);
    assert_eq!(tracker.last_needs_attention_ts, 0);
}

fn session(id: &str, state: CodexMonitorState) -> CodexMonitorSession {
    CodexMonitorSession {
        id: id.to_string(),
        cwd: "/tmp/p".to_string(),
        cli_version: None,
        model: None,
        effort: None,
        started_at: 0,
        last_activity_at: 0,
        state,
        is_running: false,
        session_title: None,
        details: None,
    }
}

fn snapshot(running: bool, sessions: Vec<CodexMonitorSession>) -> CodexMonitorSnapshot {
    CodexMonitorSnapshot { sessions, is_codex_running: running, updated_at: 0 }
}

#[test]
fn monitor_events_follow_the_changes() {
    let mut runtime = MonitorRuntime::new();
    let first = snapshot(
        true,
        vec![session("a", CodexMonitorState::Working), session("b", CodexMonitorState::Idle)],
    );
    assert!(build_monitor_events(&mut runtime, &first, 1, true).is_empty());

    let same = build_monitor_events(&mut runtime, &first, 2, true);
    assert!(same.is_empty());

    let second = snapshot(
        false,
        vec![session("b", CodexMonitorState::Error), session("c", CodexMonitorState::Idle)],
    );
    let silent = build_monitor_events(&mut runtime, &second, 3, false);
    assert!(silent.is_empty());

    let mut runtime = MonitorRuntime::new();
    build_monitor_events(&mut runtime, &first, 1, true);
    let events = build_monitor_events(&mut runtime, &second, 3, true);
    let kinds: Vec<(CodexAgentEventType, Option<String>)> =
        events.iter().map(|e| (e.event_type, e.session_id.clone())).collect();
    assert_eq!(
        kinds,
        vec![
            (CodexAgentEventType::AgentStop, None),
            (CodexAgentEventType::TaskError, Some("b".to_string())),
            (CodexAgentEventType::AgentIdle, Some("a".to_string())),
        ]
    );
    assert_eq!(events[2].details, Some("会话已结束".to_string()));
    assert_eq!(events[1].working_directory, Some("/tmp/p".to_string()));
    assert!(events.iter().all(|e| e.timestamp == 3 && e.agent == "codex"));

    let third = snapshot(true, vec![session("b", CodexMonitorState::Idle)]);
    let events = build_monitor_events(&mut runtime, &third, 4, true);
    let kinds: Vec<CodexAgentEventType> = events.iter().map(|e| e.event_type).collect();
    assert_eq!(kinds, vec![CodexAgentEventType::AgentStart, CodexAgentEventType::AgentIdle]);
}

#[test]
fn refresh_rules() {
    assert!(should_refresh(None, 1, 1));
    assert!(!should_refresh(Some((1, 1, CodexMonitorState::Idle)), 1, 1));
    assert!(should_refresh(Some((1, 1, CodexMonitorState::Idle)), 2, 1));
    assert!(should_refresh(Some((1, 1, CodexMonitorState::Offline)), 1, 2));
    assert!(should_refresh(Some((1, 1, CodexMonitorState::Working)), 1, 1));
    assert!(should_refresh(Some((1, 1, CodexMonitorState::Completed)), 1, 1));
    assert!(is_stale(1_000, 1_000 + 300_001, false));
    assert!(!is_stale(1_000, 1_000 + 300_000, false));
    assert!(!is_stale(1_000, 1_000_000_000, true));
    assert!(!is_stale(0, 1_000_000_000, false));
    assert_eq!(
        settle_working(CodexMonitorState::Working, Some(false), true),
        CodexMonitorState::Idle
    );
    assert_eq!(
        settle_working(CodexMonitorState::Working, Some(false), false),
        CodexMonitorState::Offline
    );
    assert_eq!(
        settle_working(CodexMonitorState::Working, Some(true), false),
        CodexMonitorState::Working
    );
    assert_eq!(
        settle_working(CodexMonitorState::Working, None, false),
        CodexMonitorState::Working
    );
    assert_eq!(
        settle_working(CodexMonitorState::Error, Some(false), false),
        CodexMonitorState::Error
    );
}

#[test]
fn lsof_outcomes_are_read() {
    assert_eq!(codex_rollout_file_open_by_codex("p1\nccodex\n", ""), Some(true));
    assert_eq!(codex_rollout_file_open_by_codex("p1\ncvim\n", "warning"), Some(false));
    assert_eq!(codex_rollout_file_open_by_codex("", ""), Some(false));
    assert_eq!(
        codex_rollout_file_open_by_codex(" \n", "lsof: status error on /x: No such file"),
        Some(false)
    );
    assert_eq!(codex_rollout_file_open_by_codex("", "lsof: permission denied"), None);
    assert!(is_codex_process("Codex"));
    assert!(is_codex_process("codex.exe"));
    assert!(!is_codex_process("codex-helper"));
}

#[test]
fn tails_are_read_in_growing_windows() {
    assert_eq!(
        read_tail_lines("cut\nfirst\n\n  \nsecond\nthird", false, 10),
        vec!["first".to_string(), "second".to_string(), "third".to_string()]
    );
    assert_eq!(
        read_tail_lines("first\nsecond\nthird\n", true, 2),
        vec!["second".to_string(), "third".to_string()]
    );
    assert_eq!(read_tail_lines("only", false, 2), Vec::<String>::new());
    assert_eq!(read_tail_lines("a\r\nb", true, 5), vec!["a\r".to_string(), "b".to_string()]);
    assert_eq!(read_tail_lines("a\nb", true, 0), Vec::<String>::new());
    assert_eq!(initial_tail_bytes(262_144, 1_000_000), 262_144);
    assert_eq!(initial_tail_bytes(262_144, 5_000), 5_000);
    assert_eq!(initial_tail_bytes(262_144, 10), 1024);
    assert_eq!(initial_tail_bytes(10, 5_000), 1024);
    assert_eq!(next_tail_bytes(true, 1024, 1_000_000, 8_388_608), None);
    assert_eq!(next_tail_bytes(false, 1024, 1_000_000, 8_388_608), Some(2048));
    assert_eq!(next_tail_bytes(false, 600_000, 1_000_000, 8_388_608), Some(1_000_000));
    assert_eq!(next_tail_bytes(false, 5_000_000, 100_000_000, 8_388_608), Some(8_388_608));
    assert_eq!(next_tail_bytes(false, 1_000_000, 1_000_000, 8_388_608), None);
    assert_eq!(next_tail_bytes(false, 8_388_608, 100_000_000, 8_388_608), None);
    assert_eq!(next_tail_bytes(false, u64::MAX - 1, u64::MAX, u64::MAX), Some(u64::MAX));
    assert_eq!(tail_read_start(100, 100), 0);
    assert_eq!(tail_read_start(101, 100), 0);
    assert_eq!(tail_read_start(150, 100), 49);
}

#[test]
fn date_directories_are_padded() {
    assert_eq!(
        build_date_dir(2026, 1, 9),
        ("2026".to_string(), "01".to_string(), "09".to_string())
    );
    assert_eq!(
        build_date_dir(987, 12, 31),
        ("0987".to_string(), "12".to_string(), "31".to_string())
    );
    assert_eq!(
        build_date_dir(12345, 0, 200),
        ("12345".to_string(), "00".to_string(), "200".to_string())
    );
}
