use devhaven::codex_monitor::{
    build_session_event, is_rollout_file, lsof_stdout_indicates_codex_open,
    requires_time_based_refresh, session_state, transition_to_event_type, truncate_text,
    SessionTracker,
};
use devhaven::models::{CodexAgentEventType, CodexMonitorSession, CodexMonitorState};

#[test]
fn transition_to_event_type_maps_states() {
    assert_eq!(
        transition_to_event_type(Some(&CodexMonitorState::Idle), &CodexMonitorState::Working),
        Some(CodexAgentEventType::AgentActive)
    );
    assert_eq!(
        transition_to_event_type(
            Some(&CodexMonitorState::Working),
            &CodexMonitorState::Completed
        ),
        Some(CodexAgentEventType::TaskComplete)
    );
    assert_eq!(
        transition_to_event_type(
            Some(&CodexMonitorState::NeedsAttention),
            &CodexMonitorState::Idle
        ),
        Some(CodexAgentEventType::AgentIdle)
    );
}

#[test]
fn lsof_stdout_indicates_codex_open_detects_codex_entries() {
    let sample = "p30581\nccodex\nf28\np123\ncdevhaven\nf42\n";
    assert!(lsof_stdout_indicates_codex_open(sample));
    assert!(!lsof_stdout_indicates_codex_open("p1\ncdevhaven\nf10\n"));
    assert!(!lsof_stdout_indicates_codex_open(""));
}

#[test]
fn lsof_names_are_read_in_any_case() {
    assert!(lsof_stdout_indicates_codex_open("c Codex.EXE \r\n"));
    assert!(!lsof_stdout_indicates_codex_open("ccodex-helper\n"));
    assert!(!lsof_stdout_indicates_codex_open("codex\n"));
}

#[test]
fn repeated_states_give_no_event() {
    for state in [
        CodexMonitorState::Error,
        CodexMonitorState::NeedsAttention,
        CodexMonitorState::Working,
        CodexMonitorState::Completed,
        CodexMonitorState::Idle,
        CodexMonitorState::Offline,
    ] {
        assert_eq!(transition_to_event_type(Some(&state), &state), None);
    }
    assert_eq!(transition_to_event_type(None, &CodexMonitorState::Idle), None);
    assert_eq!(transition_to_event_type(None, &CodexMonitorState::Offline), None);
    assert_eq!(
        transition_to_event_type(None, &CodexMonitorState::Error),
        Some(CodexAgentEventType::TaskError)
    );
    assert_eq!(
        transition_to_event_type(Some(&CodexMonitorState::Idle), &CodexMonitorState::NeedsAttention),
        Some(CodexAgentEventType::NeedsAttention)
    );
    assert_eq!(
        transition_to_event_type(Some(&CodexMonitorState::Completed), &CodexMonitorState::Offline),
        Some(CodexAgentEventType::AgentIdle)
    );
    assert_eq!(
        transition_to_event_type(Some(&CodexMonitorState::Offline), &CodexMonitorState::Idle),
        None
    );
}

#[test]
fn busy_states_need_refreshing() {
    assert!(requires_time_based_refresh(&CodexMonitorState::Working));
    assert!(requires_time_based_refresh(&CodexMonitorState::Completed));
    assert!(requires_time_based_refresh(&CodexMonitorState::NeedsAttention));
    assert!(requires_time_based_refresh(&CodexMonitorState::Error));
    assert!(!requires_time_based_refresh(&CodexMonitorState::Idle));
    assert!(!requires_time_based_refresh(&CodexMonitorState::Offline));
}

#[test]
fn text_is_truncated_by_characters() {
    assert_eq!(truncate_text("hello", 5), "hello");
    assert_eq!(truncate_text("hello", 4), "hell…");
    assert_eq!(truncate_text("中文字符", 2), "中文…");
    assert_eq!(truncate_text("", 0), "");
    assert_eq!(truncate_text("a", 0), "…");
}

#[test]
fn rollout_files_are_recognized() {
    assert!(is_rollout_file(Some("rollout-2026-01-28.jsonl")));
    assert!(!is_rollout_file(Some("rollout-2026.json")));
    assert!(!is_rollout_file(Some("session-rollout-.jsonl")));
    assert!(!is_rollout_file(None));
    assert!(is_rollout_file(Some("rollout-.jsonl")));
}

fn session(cwd: &str) -> CodexMonitorSession {
    CodexMonitorSession {
        id: "abc".to_string(),
        cwd: cwd.to_string(),
        cli_version: None,
        model: None,
        effort: None,
        started_at: 1,
        last_activity_at: 2,
        state: CodexMonitorState::Working,
        is_running: true,
        session_title: Some("title".to_string()),
        details: Some("运行中".to_string()),
    }
}

#[test]
fn session_events_carry_the_session() {
    let event = build_session_event(CodexAgentEventType::AgentActive, &session("/tmp/p"), 99);
    assert_eq!(event.event_type, CodexAgentEventType::AgentActive);
    assert_eq!(event.agent, "codex");
    assert_eq!(event.timestamp, 99);
    assert_eq!(event.details, Some("运行中".to_string()));
    assert_eq!(event.session_id, Some("abc".to_string()));
    assert_eq!(event.session_title, Some("title".to_string()));
    assert_eq!(event.working_directory, Some("/tmp/p".to_string()));
    let bare = build_session_event(CodexAgentEventType::AgentIdle, &session(""), 1);
    assert_eq!(bare.working_directory, None);
}

fn tracker() -> SessionTracker {
    SessionTracker {
        last_activity_at: 0,
        last_user_ts: 0,
        last_assistant_ts: 0,
        last_abort_ts: 0,
        last_agent_activity_ts: 0,
        last_error_ts: 0,
        last_needs_attention_ts: 0,
        session_title: None,
        details: None,
        model: None,
        effort: None,
    }
}

#[test]
fn session_states_follow_the_log() {
    let now = 1_000_000;
    let mut working = tracker();
    working.last_activity_at = now - 1_000;
    working.last_user_ts = now - 2_000;
    working.last_agent_activity_ts = now - 1_000;
    assert_eq!(session_state(&working, now, true), CodexMonitorState::Working);
    assert_eq!(session_state(&working, now + 10_000, true), CodexMonitorState::Idle);
    assert_eq!(session_state(&working, now + 9_000, true), CodexMonitorState::Working);

    let mut completed = tracker();
    completed.last_activity_at = now - 1_500;
    completed.last_user_ts = now - 3_000;
    completed.last_assistant_ts = now - 1_500;
    completed.last_agent_activity_ts = now - 1_500;
    assert_eq!(session_state(&completed, now, true), CodexMonitorState::Completed);
    assert_eq!(session_state(&completed, now + 1_500, true), CodexMonitorState::Completed);
    assert_eq!(session_state(&completed, now + 1_501, true), CodexMonitorState::Idle);
    assert_eq!(session_state(&completed, now, false), CodexMonitorState::Completed);

    let mut attention = tracker();
    attention.last_activity_at = now;
    attention.last_needs_attention_ts = now - 900_000;
    assert_eq!(session_state(&attention, now, true), CodexMonitorState::NeedsAttention);
    assert_eq!(session_state(&attention, now + 1, true), CodexMonitorState::Idle);
    attention.last_needs_attention_ts = now - 800_000;
    attention.last_error_ts = now - 90_000;
    assert_eq!(session_state(&attention, now, true), CodexMonitorState::Error);
    assert_eq!(session_state(&attention, now + 1, true), CodexMonitorState::NeedsAttention);

    let mut silent = tracker();
    silent.last_activity_at = now - 15_001;
    assert_eq!(session_state(&silent, now, false), CodexMonitorState::Offline);
    assert_eq!(session_state(&silent, now, true), CodexMonitorState::Idle);
    silent.last_activity_at = now - 15_000;
    assert_eq!(session_state(&silent, now, false), CodexMonitorState::Idle);
    assert_eq!(session_state(&tracker(), i64::MIN, false), CodexMonitorState::Idle);
    assert_eq!(session_state(&tracker(), i64::MAX, false), CodexMonitorState::Offline);
}
