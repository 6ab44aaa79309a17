use devhaven::protocol::{
    new_state_payload, parse_control_line, ControlLine, ResponseBlock, TmuxStatePayload,
};
use devhaven::reassembly::decode_tmux_output;

fn state(kind: &str) -> TmuxStatePayload {
    new_state_payload(kind)
}

#[test]
fn decode_tmux_output_handles_octal() {
    let input = "hello\\040world\\041";
    let output = decode_tmux_output(input);
    assert_eq!(output, "hello world!");
}

#[test]
fn parse_control_line_handles_output() {
    let line = "%output %1 hello\\040world";
    let expected = ControlLine::Output {
        pane_id: "%1".to_string(),
        data: "hello world".to_string(),
    };
    assert_eq!(parse_control_line(line), expected);
}

#[test]
fn parse_control_line_handles_begin_end_error() {
    let begin = parse_control_line("%begin 123 0 1");
    let end = parse_control_line("%end 123 0 1");
    let error = parse_control_line("%error 123 0 1");
    assert_eq!(
        begin,
        ControlLine::Begin {
            block: ResponseBlock {
                id: "123".to_string(),
                number: "0".to_string(),
                flags: "1".to_string(),
            }
        }
    );
    assert_eq!(
        end,
        ControlLine::End {
            block: ResponseBlock {
                id: "123".to_string(),
                number: "0".to_string(),
                flags: "1".to_string(),
            },
            is_error: false,
        }
    );
    assert_eq!(
        error,
        ControlLine::End {
            block: ResponseBlock {
                id: "123".to_string(),
                number: "0".to_string(),
                flags: "1".to_string(),
            },
            is_error: true,
        }
    );
}

#[test]
fn parse_control_line_handles_session_changed() {
    let line = "%client-session-changed 0 1 devhaven";
    let mut payload = new_state_payload("client-session-changed");
    payload.client = Some("0".to_string());
    payload.session_id = Some("1".to_string());
    payload.session_name = Some("devhaven".to_string());
    let expected = ControlLine::State { payload };
    assert_eq!(parse_control_line(line), expected);
}

#[test]
fn parse_control_line_handles_extended_output() {
    let line = "%extended-output %1 10 : hello\\040world";
    let expected = ControlLine::Output {
        pane_id: "%1".to_string(),
        data: "hello world".to_string(),
    };
    assert_eq!(parse_control_line(line), expected);
}

#[test]
fn parse_control_line_handles_layout_change() {
    let line = "%layout-change @2 123x45,0,0{1x1,0,0,0} 123x45,0,0{1x1,0,0,0} *-";
    let mut payload = new_state_payload("layout-change");
    payload.window_id = Some("@2".to_string());
    payload.layout = Some("123x45,0,0{1x1,0,0,0}".to_string());
    payload.visible_layout = Some("123x45,0,0{1x1,0,0,0}".to_string());
    payload.window_flags = Some("*-".to_string());
    let expected = ControlLine::State { payload };
    assert_eq!(parse_control_line(line), expected);
}

#[test]
fn parse_control_line_handles_subscription_changed() {
    let line = "%subscription-changed foo $1 @2 3 %4 : bar baz";
    let mut payload = new_state_payload("subscription-changed");
    payload.subscription_name = Some("foo".to_string());
    payload.session_id = Some("$1".to_string());
    payload.window_id = Some("@2".to_string());
    payload.window_index = Some("3".to_string());
    payload.pane_id = Some("%4".to_string());
    payload.subscription_value = Some("bar baz".to_string());
    let expected = ControlLine::State { payload };
    assert_eq!(parse_control_line(line), expected);
}

#[test]
fn client_session_changed_with_session_sigil() {
    let mut payload = state("client-session-changed");
    payload.client = Some("0".to_string());
    payload.session_id = Some("$1".to_string());
    payload.session_name = Some("devhaven".to_string());
    assert_eq!(
        parse_control_line("%client-session-changed 0 $1 devhaven"),
        ControlLine::State { payload }
    );
}

#[test]
fn client_session_changed_keeps_spaces_in_name() {
    let mut payload = state("client-session-changed");
    payload.client = Some("/dev/ttys001".to_string());
    payload.session_id = Some("$3".to_string());
    payload.session_name = Some("my project".to_string());
    assert_eq!(
        parse_control_line("%client-session-changed /dev/ttys001 $3 my project"),
        ControlLine::State { payload }
    );
}

#[test]
fn client_session_changed_with_client_only() {
    let mut payload = state("client-session-changed");
    payload.client = Some("0".to_string());
    assert_eq!(
        parse_control_line("%client-session-changed 0"),
        ControlLine::State { payload }
    );
}

#[test]
fn output_without_pane_is_unknown() {
    assert_eq!(parse_control_line("%output  data"), ControlLine::Unknown);
    assert_eq!(parse_control_line("%output "), ControlLine::Unknown);
}

#[test]
fn output_without_data_is_empty() {
    assert_eq!(
        parse_control_line("%output %7"),
        ControlLine::Output { pane_id: "%7".to_string(), data: String::new() }
    );
}

#[test]
fn output_keeps_spaces_of_data() {
    assert_eq!(
        parse_control_line("%output %7  two  spaces "),
        ControlLine::Output { pane_id: "%7".to_string(), data: " two  spaces ".to_string() }
    );
}

#[test]
fn extended_output_without_separator_has_no_data() {
    assert_eq!(
        parse_control_line("%extended-output %1 10"),
        ControlLine::Output { pane_id: "%1".to_string(), data: String::new() }
    );
}

#[test]
fn extended_output_with_bare_colon() {
    assert_eq!(
        parse_control_line("%extended-output %1 10 :data"),
        ControlLine::Output { pane_id: "%1".to_string(), data: "data".to_string() }
    );
    assert_eq!(
        parse_control_line("%extended-output %1 10 :\tdata"),
        ControlLine::Output { pane_id: "%1".to_string(), data: "data".to_string() }
    );
    assert_eq!(
        parse_control_line("%extended-output %1 10 :   data"),
        ControlLine::Output { pane_id: "%1".to_string(), data: "  data".to_string() }
    );
}

#[test]
fn extended_output_without_pane_is_unknown() {
    assert_eq!(parse_control_line("%extended-output  : x"), ControlLine::Unknown);
}

#[test]
fn window_notifications_take_first_word() {
    for (line, kind) in [
        ("%window-add @5", "window-add"),
        ("%window-close @5 extra", "window-close"),
        ("%unlinked-window-add @5", "unlinked-window-add"),
        ("%unlinked-window-close   @5", "unlinked-window-close"),
    ] {
        let mut payload = state(kind);
        payload.window_id = Some("@5".to_string());
        assert_eq!(parse_control_line(line), ControlLine::State { payload });
    }
}

#[test]
fn window_renamed_keeps_rest_as_name() {
    let mut payload = state("window-renamed");
    payload.window_id = Some("@5".to_string());
    payload.window_name = Some("build log".to_string());
    assert_eq!(
        parse_control_line("%window-renamed @5 build log"),
        ControlLine::State { payload }
    );
    let mut bare = state("unlinked-window-renamed");
    bare.window_id = Some("@5".to_string());
    assert_eq!(
        parse_control_line("%unlinked-window-renamed @5"),
        ControlLine::State { payload: bare }
    );
}

#[test]
fn window_pane_changed_takes_two_words() {
    let mut payload = state("window-pane-changed");
    payload.window_id = Some("@1".to_string());
    payload.pane_id = Some("%9".to_string());
    assert_eq!(
        parse_control_line("%window-pane-changed @1 %9"),
        ControlLine::State { payload }
    );
}

#[test]
fn session_notifications() {
    let mut changed = state("session-changed");
    changed.session_id = Some("$2".to_string());
    changed.session_name = Some("work space".to_string());
    assert_eq!(
        parse_control_line("%session-changed $2 work space"),
        ControlLine::State { payload: changed }
    );

    let mut renamed = state("session-renamed");
    renamed.session_name = Some("new name".to_string());
    assert_eq!(
        parse_control_line("%session-renamed  new name "),
        ControlLine::State { payload: renamed }
    );
    assert_eq!(
        parse_control_line("%session-renamed   "),
        ControlLine::State { payload: state("session-renamed") }
    );

    let mut window = state("session-window-changed");
    window.session_id = Some("$2".to_string());
    window.window_id = Some("@4".to_string());
    assert_eq!(
        parse_control_line("%session-window-changed $2 @4"),
        ControlLine::State { payload: window }
    );

    assert_eq!(
        parse_control_line("%sessions-changed"),
        ControlLine::State { payload: state("sessions-changed") }
    );

    let mut detached = state("client-detached");
    detached.client = Some("/dev/ttys000".to_string());
    assert_eq!(
        parse_control_line("%client-detached /dev/ttys000"),
        ControlLine::State { payload: detached }
    );
}

#[test]
fn pane_notifications() {
    for (line, kind) in [
        ("%pane-mode-changed %3", "pane-mode-changed"),
        ("%pause %3", "pause"),
        ("%continue %3", "continue"),
    ] {
        let mut payload = state(kind);
        payload.pane_id = Some("%3".to_string());
        assert_eq!(parse_control_line(line), ControlLine::State { payload });
    }
}

#[test]
fn buffer_and_message_notifications() {
    let mut changed = state("paste-buffer-changed");
    changed.buffer_name = Some("buffer0".to_string());
    assert_eq!(
        parse_control_line("%paste-buffer-changed buffer0"),
        ControlLine::State { payload: changed }
    );
    let mut deleted = state("paste-buffer-deleted");
    deleted.buffer_name = Some("buffer1".to_string());
    assert_eq!(
        parse_control_line("%paste-buffer-deleted buffer1 "),
        ControlLine::State { payload: deleted }
    );
    let mut message = state("message");
    message.message = Some("hello there".to_string());
    assert_eq!(
        parse_control_line("%message  hello there"),
        ControlLine::State { payload: message }
    );
    let mut config = state("config-error");
    config.message = Some("/etc/tmux.conf:1: bad".to_string());
    assert_eq!(
        parse_control_line("%config-error /etc/tmux.conf:1: bad"),
        ControlLine::State { payload: config }
    );
}

#[test]
fn subscription_without_name_is_unknown() {
    assert_eq!(parse_control_line("%subscription-changed  : value"), ControlLine::Unknown);
}

#[test]
fn subscription_without_value() {
    let mut payload = state("subscription-changed");
    payload.subscription_name = Some("foo".to_string());
    payload.session_id = Some("$1".to_string());
    assert_eq!(
        parse_control_line("%subscription-changed foo $1"),
        ControlLine::State { payload }
    );
}

#[test]
fn malformed_markers_are_unknown() {
    assert_eq!(parse_control_line("%begin 1 2"), ControlLine::Unknown);
    assert_eq!(parse_control_line("%end"), ControlLine::Unknown);
    assert_eq!(parse_control_line("%error 1"), ControlLine::Unknown);
    assert_eq!(parse_control_line("%something-new 1 2 3"), ControlLine::Unknown);
    assert_eq!(parse_control_line("plain text"), ControlLine::Unknown);
    assert_eq!(parse_control_line(""), ControlLine::Unknown);
}

#[test]
fn exit_with_and_without_reason() {
    assert_eq!(parse_control_line("%exit"), ControlLine::Exit { reason: None });
    assert_eq!(
        parse_control_line("%exit server exited"),
        ControlLine::Exit { reason: Some("server exited".to_string()) }
    );
    assert_eq!(parse_control_line("%exit   "), ControlLine::Exit { reason: None });
}

#[test]
fn begin_takes_words_across_any_white_space() {
    assert_eq!(
        parse_control_line("%begin 1700000000\t42   0 trailing"),
        ControlLine::Begin {
            block: ResponseBlock {
                id: "1700000000".to_string(),
                number: "42".to_string(),
                flags: "0".to_string(),
            }
        }
    );
}
