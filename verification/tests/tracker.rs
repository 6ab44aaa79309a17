use devhaven::protocol::ResponseBlock;
use devhaven::tracker::{
    fail_command_write, handle_tmux_line, is_timeout, overwritten_result,
    prepare_command_completion, take_response_output, wait_for_command_completion,
    ControlCommandResult, ControlModeState, ControlParserState,
};

fn ready(ticket: u32) -> ControlParserState<u32> {
    let mut state = ControlParserState::new();
    assert_eq!(prepare_command_completion(&mut state, ticket), Ok(None));
    state
}

#[test]
fn new_state_is_in_recovery() {
    let state: ControlParserState<u32> = ControlParserState::new();
    assert_eq!(state.mode, ControlModeState::Recovery);
    assert!(state.recovery_pending);
    assert!(state.current_response.is_none());
    assert!(state.response_output.is_empty());
    assert!(state.pending_completion.is_none());
}

#[test]
fn begin_then_end_is_an_empty_success() {
    let mut state = ready(7);
    let first = handle_tmux_line(&mut state, "%begin 100 1 0", "main");
    assert!(first.completion_result.is_none());
    assert_eq!(state.mode, ControlModeState::InResponse);
    let second = handle_tmux_line(&mut state, "%end 100 1 0", "main");
    assert_eq!(second.completion_tx, Some(7));
    assert_eq!(
        second.completion_result,
        Some(ControlCommandResult::Success { output: String::new() })
    );
    assert!(!second.should_exit);
    assert_eq!(state.mode, ControlModeState::Idle);
    assert!(state.current_response.is_none());
    assert!(state.pending_completion.is_none());
}

#[test]
fn foreign_end_inside_a_response_is_content() {
    let mut state = ready(1);
    handle_tmux_line(&mut state, "%begin 100 1 0", "main");
    let fake = handle_tmux_line(&mut state, "%end 999 9 0", "main");
    assert!(fake.completion_result.is_none());
    assert!(fake.completion_tx.is_none());
    assert_eq!(state.mode, ControlModeState::InResponse);
    assert_eq!(state.response_output, vec!["%end 999 9 0".to_string()]);
    let done = handle_tmux_line(&mut state, "%end 100 1 0", "main");
    assert_eq!(done.completion_tx, Some(1));
    assert_eq!(
        done.completion_result,
        Some(ControlCommandResult::Success { output: "%end 999 9 0".to_string() })
    );
}

#[test]
fn response_lines_are_joined_by_line_feeds() {
    let mut state = ready(1);
    handle_tmux_line(&mut state, "%begin 5 6 7", "s");
    handle_tmux_line(&mut state, "first", "s");
    handle_tmux_line(&mut state, "", "s");
    handle_tmux_line(&mut state, "%output %1 looks like an event", "s");
    handle_tmux_line(&mut state, "%error 5 6", "s");
    let done = handle_tmux_line(&mut state, "%end 5 6 7", "s");
    assert_eq!(
        done.completion_result,
        Some(ControlCommandResult::Success {
            output: "first\n\n%output %1 looks like an event\n%error 5 6".to_string()
        })
    );
}

#[test]
fn error_marker_fails_the_command_with_the_raw_line() {
    let mut state = ready(3);
    handle_tmux_line(&mut state, "%begin 5 6 7", "s");
    handle_tmux_line(&mut state, "unknown command: foo", "s");
    let done = handle_tmux_line(&mut state, "%error 5 6 7", "s");
    assert_eq!(done.completion_tx, Some(3));
    assert_eq!(
        done.completion_result,
        Some(ControlCommandResult::Error {
            message: "控制命令失败: %error 5 6 7".to_string(),
            output: "unknown command: foo".to_string(),
        })
    );
    assert_eq!(state.mode, ControlModeState::Idle);
}

#[test]
fn recovery_discards_lines_until_a_response_begins() {
    let mut state: ControlParserState<u32> = ControlParserState::new();
    for line in ["banner", "%output %1 stale", "%end 1 2 3", "%session-changed $1 x", ""] {
        let outcome = handle_tmux_line(&mut state, line, "s");
        assert!(outcome.output.is_none());
        assert!(outcome.state.is_none());
        assert!(outcome.completion_result.is_none());
        assert_eq!(state.mode, ControlModeState::Recovery);
        assert!(state.recovery_pending);
    }
    handle_tmux_line(&mut state, "%begin 1 2 3", "s");
    assert_eq!(state.mode, ControlModeState::InResponse);
    assert!(!state.recovery_pending);
    assert_eq!(
        state.current_response,
        Some(ResponseBlock {
            id: "1".to_string(),
            number: "2".to_string(),
            flags: "3".to_string()
        })
    );
}

#[test]
fn timeout_forces_recovery_and_fails_the_command() {
    let mut state = ready(4);
    handle_tmux_line(&mut state, "%begin 1 2 3", "s");
    handle_tmux_line(&mut state, "partial", "s");
    let result = wait_for_command_completion(&mut state, None);
    assert_eq!(
        result,
        ControlCommandResult::Error {
            message: "控制命令超时".to_string(),
            output: "partial".to_string(),
        }
    );
    assert!(is_timeout(&result));
    assert_eq!(state.mode, ControlModeState::Recovery);
    assert!(state.recovery_pending);
    assert!(state.current_response.is_none());
    assert!(state.pending_completion.is_none());

    let late = handle_tmux_line(&mut state, "%end 1 2 3", "s");
    assert!(late.completion_result.is_none());
    assert_eq!(state.mode, ControlModeState::Recovery);
    let event = handle_tmux_line(&mut state, "%window-add @1", "s");
    assert!(event.state.is_none());

    assert_eq!(prepare_command_completion(&mut state, 5), Ok(None));
    handle_tmux_line(&mut state, "%begin 4 5 6", "s");
    let done = handle_tmux_line(&mut state, "%end 4 5 6", "s");
    assert_eq!(done.completion_tx, Some(5));
    assert_eq!(
        done.completion_result,
        Some(ControlCommandResult::Success { output: String::new() })
    );
}

#[test]
fn a_result_in_time_is_handed_on() {
    let mut state = ready(4);
    let received = ControlCommandResult::Success { output: "ok".to_string() };
    let result = wait_for_command_completion(&mut state, Some(received.clone()));
    assert_eq!(result, received);
    assert!(!is_timeout(&result));
    assert_eq!(state.pending_completion, Some(4));
}

#[test]
fn exit_in_recovery_ends_the_channel() {
    let mut state: ControlParserState<u32> = ControlParserState::new();
    let outcome = handle_tmux_line(&mut state, "%exit detached", "s");
    assert!(outcome.should_exit);
    assert_eq!(state.mode, ControlModeState::Exiting);
    let payload = outcome.state.expect("exit event");
    assert_eq!(payload.kind, "client-exit");
    assert_eq!(payload.reason, Some("detached".to_string()));
    assert_eq!(
        outcome.completion_result,
        Some(ControlCommandResult::Error {
            message: "控制通道已退出".to_string(),
            output: String::new(),
        })
    );
    assert!(outcome.completion_tx.is_none());
}

#[test]
fn exit_inside_a_response_delivers_the_partial_output() {
    let mut state = ready(9);
    handle_tmux_line(&mut state, "%begin 1 2 3", "s");
    handle_tmux_line(&mut state, "line one", "s");
    let outcome = handle_tmux_line(&mut state, "%exit", "s");
    assert!(outcome.should_exit);
    assert_eq!(outcome.completion_tx, Some(9));
    assert_eq!(
        outcome.completion_result,
        Some(ControlCommandResult::Error {
            message: "控制通道已退出".to_string(),
            output: "line one".to_string(),
        })
    );
    assert_eq!(outcome.state.expect("exit event").reason, None);
    assert_eq!(state.mode, ControlModeState::Exiting);
    assert!(state.current_response.is_none());
    assert!(state.response_output.is_empty());
}

#[test]
fn an_exited_channel_ignores_lines_and_refuses_commands() {
    let mut state: ControlParserState<u32> = ControlParserState::new();
    handle_tmux_line(&mut state, "%exit", "s");
    let outcome = handle_tmux_line(&mut state, "%output %1 x", "s");
    assert!(outcome.output.is_none());
    assert_eq!(state.mode, ControlModeState::Exiting);
    assert_eq!(prepare_command_completion(&mut state, 1), Err(1));
    assert!(state.pending_completion.is_none());
}

#[test]
fn idle_lines_are_events() {
    let mut state = ready(1);
    handle_tmux_line(&mut state, "%begin 1 2 3", "main");
    handle_tmux_line(&mut state, "%end 1 2 3", "main");
    assert_eq!(state.mode, ControlModeState::Idle);

    let output = handle_tmux_line(&mut state, "%output %2 hi\\041", "main");
    let payload = output.output.expect("output event");
    assert_eq!(payload.session_id, "main");
    assert_eq!(payload.pane_id, "%2");
    assert_eq!(payload.data, "hi!");

    let change = handle_tmux_line(&mut state, "%window-add @3", "main");
    let payload = change.state.expect("state event");
    assert_eq!(payload.kind, "window-add");
    assert_eq!(payload.window_id, Some("@3".to_string()));

    let unknown = handle_tmux_line(&mut state, "%future-thing 1", "main");
    assert!(unknown.output.is_none() && unknown.state.is_none());
    let empty = handle_tmux_line(&mut state, "", "main");
    assert!(empty.output.is_none() && empty.state.is_none());
    assert_eq!(state.mode, ControlModeState::Idle);
}

#[test]
fn a_stray_end_while_idle_completes_the_waiter() {
    let mut state = ready(1);
    handle_tmux_line(&mut state, "%begin 1 2 3", "main");
    handle_tmux_line(&mut state, "%end 1 2 3", "main");
    assert_eq!(prepare_command_completion(&mut state, 2), Ok(None));
    let outcome = handle_tmux_line(&mut state, "%end 8 8 8", "main");
    assert_eq!(outcome.completion_tx, Some(2));
    assert_eq!(
        outcome.completion_result,
        Some(ControlCommandResult::Success { output: String::new() })
    );
}

#[test]
fn a_later_command_displaces_an_uncollected_one() {
    let mut state = ready(1);
    handle_tmux_line(&mut state, "%begin 1 2 3", "s");
    handle_tmux_line(&mut state, "stale", "s");
    assert_eq!(prepare_command_completion(&mut state, 2), Ok(Some(1)));
    assert_eq!(state.mode, ControlModeState::Idle);
    assert!(state.current_response.is_none());
    assert!(state.response_output.is_empty());
    assert_eq!(state.pending_completion, Some(2));
    assert_eq!(
        overwritten_result(),
        ControlCommandResult::Error {
            message: "控制命令被覆盖".to_string(),
            output: String::new(),
        }
    );
}

#[test]
fn a_failed_write_forces_recovery() {
    let mut state = ready(1);
    let result = fail_command_write(&mut state, "控制命令写入失败: broken pipe".to_string());
    assert_eq!(
        result,
        ControlCommandResult::Error {
            message: "控制命令写入失败: broken pipe".to_string(),
            output: String::new(),
        }
    );
    assert_eq!(state.mode, ControlModeState::Recovery);
    assert!(state.pending_completion.is_none());
}

#[test]
fn take_response_output_empties_the_buffer() {
    let mut state: ControlParserState<u32> = ControlParserState::new();
    assert_eq!(take_response_output(&mut state), "");
    state.response_output.push("a".to_string());
    state.response_output.push("b".to_string());
    assert_eq!(take_response_output(&mut state), "a\nb");
    assert!(state.response_output.is_empty());
}
