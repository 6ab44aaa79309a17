use devhaven::command::{
    is_tmux_server_missing_error, is_tmux_session_missing_error,
    legacy_session_name_for_project_id, parse_tmux_flag, sanitize_session_char,
    server_missing_in, session_missing_in, session_name_for_project, tmux_command_string,
    tmux_quote_arg,
};
use devhaven::invocation::{
    apply_tmux_pane_style, build_tmux_env, plan_session,
    read_tmux_session_option, resolve_tmux_bin, resolve_tmux_session_path, run_tmux_command,
    run_tmux_status, session_info, set_tmux_session_metadata, set_tmux_session_option,
    SessionStart,
};
use devhaven::manager::{
    close_outcome, control_outcome, send_control_or_fallback, NextStep, TerminalManager,
};
use devhaven::replies::{
    parse_pane_cursor, parse_pane_list, parse_session_list, parse_window_list, ListedSession,
    TmuxPaneCursor, TmuxPaneInfo, TmuxWindowInfo,
};
use devhaven::session::{ensure_supported, tmux_support_status};
use devhaven::tracker::ControlCommandResult;

fn strings(items: &[&str]) -> Vec<String> {
    items.iter().map(|s| s.to_string()).collect()
}

fn chars(s: &str) -> Vec<char> {
    s.chars().collect()
}

#[test]
fn safe_arguments_are_not_quoted() {
    assert_eq!(tmux_quote_arg("split-window"), "split-window");
    assert_eq!(tmux_quote_arg("#{pane_current_path}"), "#{pane_current_path}");
    assert_eq!(tmux_quote_arg("%12"), "%12");
    assert_eq!(tmux_quote_arg("a-b_c.d/e:f@g=h+i,j"), "a-b_c.d/e:f@g=h+i,j");
}

#[test]
fn unsafe_arguments_are_quoted_and_escaped() {
    assert_eq!(tmux_quote_arg(""), "\"\"");
    assert_eq!(tmux_quote_arg("my project"), "\"my project\"");
    assert_eq!(tmux_quote_arg("a\"b"), "\"a\\\"b\"");
    assert_eq!(tmux_quote_arg("a\\b"), "\"a\\\\b\"");
    assert_eq!(tmux_quote_arg("$1"), "\"$1\"");
    assert_eq!(tmux_quote_arg("日本"), "\"日本\"");
    assert_eq!(tmux_quote_arg("\\\""), "\"\\\\\\\"\"");
}

#[test]
fn command_strings_join_quoted_arguments() {
    assert_eq!(tmux_command_string(&strings(&[])), "");
    assert_eq!(tmux_command_string(&strings(&["kill-pane"])), "kill-pane");
    assert_eq!(
        tmux_command_string(&strings(&["new-window", "-t", "my session", "-c", "/tmp/a b"])),
        "new-window -t \"my session\" -c \"/tmp/a b\""
    );
    assert_eq!(tmux_command_string(&strings(&["a", "", "b"])), "a \"\" b");
}

#[test]
fn session_names_are_sanitized() {
    assert_eq!(session_name_for_project("DevHaven"), "DevHaven");
    assert_eq!(session_name_for_project("  my project  "), "my project");
    assert_eq!(session_name_for_project("a.b:c"), "a_b_c");
    assert_eq!(session_name_for_project("项目-1"), "项目-1");
    assert_eq!(session_name_for_project(""), "devhaven");
    assert_eq!(session_name_for_project("   "), "devhaven");
    assert_eq!(session_name_for_project("a\tb"), "a_b");
    assert_eq!(sanitize_session_char('.', false), '_');
    assert_eq!(sanitize_session_char('é', true), 'é');
    assert_eq!(sanitize_session_char(' ', false), ' ');
}

#[test]
fn legacy_session_names_are_ascii() {
    assert_eq!(legacy_session_name_for_project_id("abc-123_x"), "devhaven_abc-123_x");
    assert_eq!(legacy_session_name_for_project_id("a.b c"), "devhaven_a_b_c");
    assert_eq!(legacy_session_name_for_project_id("é"), "devhaven__");
    assert_eq!(legacy_session_name_for_project_id(""), "devhaven_");
}

#[test]
fn flags_are_read_leniently() {
    assert!(parse_tmux_flag(&chars("1")));
    assert!(parse_tmux_flag(&chars("true")));
    assert!(parse_tmux_flag(&chars("yes")));
    assert!(!parse_tmux_flag(&chars("0")));
    assert!(!parse_tmux_flag(&chars("")));
    assert!(!parse_tmux_flag(&chars("TRUE")));
}

#[test]
fn missing_server_and_session_are_recognized_in_any_case() {
    assert!(is_tmux_server_missing_error("No Server Running on /tmp/tmux-501/default"));
    assert!(is_tmux_server_missing_error("error: Failed to connect to server"));
    assert!(is_tmux_server_missing_error("no sessions"));
    assert!(!is_tmux_server_missing_error("can't find session: x"));
    assert!(is_tmux_session_missing_error("Can't find session: x"));
    assert!(is_tmux_session_missing_error("No such session"));
    assert!(!is_tmux_session_missing_error("no server running"));
    assert!(server_missing_in("no server running"));
    assert!(!server_missing_in("No Server Running"));
    assert!(session_missing_in("no such session: a"));
}

#[test]
fn support_needs_platform_and_binary() {
    let ok = tmux_support_status(true, true);
    assert!(ok.supported);
    assert_eq!(ok.reason, None);
    let no_binary = tmux_support_status(true, false);
    assert!(!no_binary.supported);
    assert_eq!(no_binary.reason, Some("未检测到 tmux，请先安装 tmux".to_string()));
    let wrong_platform = tmux_support_status(false, true);
    assert!(!wrong_platform.supported);
    assert_eq!(wrong_platform.reason, Some("tmux 工作空间仅支持 macOS".to_string()));
    assert_eq!(tmux_support_status(false, false).reason, wrong_platform.reason);
    assert_eq!(ensure_supported(true, true), Ok(()));
    assert_eq!(ensure_supported(true, false), Err("未检测到 tmux，请先安装 tmux".to_string()));
    assert_eq!(ensure_supported(false, false), Err("tmux 工作空间仅支持 macOS".to_string()));
}

#[test]
fn pane_operations_build_commands() {
    let manager = TerminalManager::new();
    let split = manager.split_pane("%1", "vertical");
    assert_eq!(split.session_id, None);
    assert_eq!(
        split.args,
        strings(&["split-window", "-v", "-t", "%1", "-c", "#{pane_current_path}"])
    );
    assert_eq!(split.command, "split-window -v -t %1 -c #{pane_current_path}");
    assert_eq!(manager.split_pane("%1", "horizontal").args[1], "-h");
    assert_eq!(manager.split_pane("%1", "").args[1], "-h");

    assert_eq!(manager.select_pane("%2").command, "select-pane -t %2");
    assert_eq!(manager.kill_pane("%2").command, "kill-pane -t %2");
    assert_eq!(
        manager.select_pane_direction("%2", "left").map(|r| r.command),
        Ok("select-pane -L -t %2".to_string())
    );
    assert_eq!(
        manager.select_pane_direction("%2", "down").map(|r| r.args),
        Ok(strings(&["select-pane", "-D", "-t", "%2"]))
    );
    assert_eq!(
        manager.select_pane_direction("%2", "sideways"),
        Err("未知的 pane 方向".to_string())
    );
}

#[test]
fn resize_pane_checks_count_before_direction() {
    let manager = TerminalManager::new();
    assert_eq!(manager.resize_pane("%1", "sideways", 0), Ok(None));
    assert_eq!(manager.resize_pane("%1", "sideways", 1), Err("未知的 pane 方向".to_string()));
    let request = manager.resize_pane("%1", "up", 12).expect("direction").expect("request");
    assert_eq!(request.command, "resize-pane -U -t %1 12");
    assert_eq!(request.args, strings(&["resize-pane", "-U", "-t", "%1", "12"]));
    let widest = manager.resize_pane("%1", "right", 65535).expect("direction").expect("request");
    assert_eq!(widest.args[4], "65535");
}

#[test]
fn window_operations_build_commands() {
    let manager = TerminalManager::new();
    let new = manager.new_window("main", "/tmp/my project");
    assert_eq!(new.session_id, Some("main".to_string()));
    assert_eq!(new.command, "new-window -t main -c \"/tmp/my project\"");
    assert_eq!(new.args, strings(&["new-window", "-t", "main", "-c", "/tmp/my project"]));
    assert_eq!(manager.select_window("@3").command, "select-window -t @3");
    let by_index = manager.select_window_index("main", 2);
    assert_eq!(by_index.session_id, Some("main".to_string()));
    assert_eq!(by_index.command, "select-window -t main:2");
    assert_eq!(manager.select_window_index("s", -1).args[2], "s:-1");
    assert_eq!(manager.select_window_index("s", i32::MIN).args[2], "s:-2147483648");
    assert_eq!(manager.next_window().command, "select-window -n");
    assert_eq!(manager.previous_window().command, "select-window -p");
    let resize = manager.resize_client("main", 120, 40);
    assert_eq!(resize.command, "refresh-client -C 120x40");
    assert_eq!(resize.session_id, Some("main".to_string()));
    assert_eq!(manager.resize_client("main", 0, 0).args[2], "0x0");
}

#[test]
fn direct_operations_build_arguments() {
    let manager = TerminalManager::new();
    assert_eq!(manager.send_input("%1", ""), None);
    assert_eq!(
        manager.send_input("%1", "ls -la\n"),
        Some(strings(&["send-keys", "-l", "-t", "%1", "ls -la\n"]))
    );
    assert_eq!(
        manager.capture_pane("%1"),
        strings(&["capture-pane", "-p", "-S", "-", "-e", "-t", "%1"])
    );
    assert_eq!(
        manager.get_pane_cursor("%1"),
        strings(&["display-message", "-p", "-t", "%1", "#{cursor_x}\t#{cursor_y}"])
    );
}

#[test]
fn window_listings_are_read() {
    let output = "@1\t0\tzsh\t1\t120\t40\n@2\t1\tvim notes\t0\t80\t24\nshort\tline\n@3\tx\t\tyes\t-1\t70000\n";
    assert_eq!(
        parse_window_list(output),
        vec![
            TmuxWindowInfo {
                id: "@1".to_string(),
                index: 0,
                name: "zsh".to_string(),
                is_active: true,
                width: 120,
                height: 40,
            },
            TmuxWindowInfo {
                id: "@2".to_string(),
                index: 1,
                name: "vim notes".to_string(),
                is_active: false,
                width: 80,
                height: 24,
            },
            TmuxWindowInfo {
                id: "@3".to_string(),
                index: 0,
                name: String::new(),
                is_active: true,
                width: 0,
                height: 0,
            },
        ]
    );
    assert_eq!(parse_window_list(""), Vec::<TmuxWindowInfo>::new());
}

#[test]
fn pane_listings_are_read() {
    let output = "%1\t0\t0\t60\t40\t1\r\n%2\t61\t0\t59\t40\t0";
    assert_eq!(
        parse_pane_list(output),
        vec![
            TmuxPaneInfo {
                id: "%1".to_string(),
                left: 0,
                top: 0,
                width: 60,
                height: 40,
                is_active: true,
            },
            TmuxPaneInfo {
                id: "%2".to_string(),
                left: 61,
                top: 0,
                width: 59,
                height: 40,
                is_active: false,
            },
        ]
    );
}

#[test]
fn cursor_replies_are_read() {
    assert_eq!(parse_pane_cursor("12\t7\n"), TmuxPaneCursor { col: 12, row: 7 });
    assert_eq!(parse_pane_cursor("12"), TmuxPaneCursor { col: 12, row: 0 });
    assert_eq!(parse_pane_cursor(""), TmuxPaneCursor { col: 0, row: 0 });
    assert_eq!(parse_pane_cursor("x\t+3"), TmuxPaneCursor { col: 0, row: 3 });
    assert_eq!(parse_pane_cursor("65536\t65535"), TmuxPaneCursor { col: 0, row: 65535 });
}

#[test]
fn session_listings_are_read() {
    let output = "main\t1700000000\n  spaced  \t 12 \n\t5\nold\t-4\nbare\nbad\tx1\n";
    assert_eq!(
        parse_session_list(output),
        vec![
            ListedSession { id: "main".to_string(), created_at: 1_700_000_000_000 },
            ListedSession { id: "spaced".to_string(), created_at: 12_000 },
            ListedSession { id: "old".to_string(), created_at: 0 },
            ListedSession { id: "bare".to_string(), created_at: 0 },
            ListedSession { id: "bad".to_string(), created_at: 0 },
        ]
    );
}

#[test]
fn session_info_falls_back_to_the_session_name() {
    let listed = ListedSession { id: "main".to_string(), created_at: 5 };
    let bare = session_info(listed.clone(), None, None);
    assert_eq!(bare.id, "main");
    assert_eq!(bare.project_id, "main");
    assert_eq!(bare.project_path, "");
    assert_eq!(bare.created_at, 5);
    let full = session_info(listed, Some("p1".to_string()), Some("/tmp/p".to_string()));
    assert_eq!(full.project_id, "p1");
    assert_eq!(full.project_path, "/tmp/p");
}

#[test]
fn sessions_are_planned_and_recorded() {
    let manager = TerminalManager::new();
    assert_eq!(plan_session(true, false), SessionStart::Attach);
    assert_eq!(plan_session(true, true), SessionStart::Attach);
    assert_eq!(plan_session(false, true), SessionStart::RenameLegacy);
    assert_eq!(plan_session(false, false), SessionStart::Create);
    let info = manager.create_session("work".to_string(), "p1", "/tmp/p", 1234);
    assert_eq!(info.id, "work");
    assert_eq!(info.project_id, "p1");
    assert_eq!(info.project_path, "/tmp/p");
    assert_eq!(info.created_at, 1234);
}

#[test]
fn environment_is_completed_with_defaults() {
    let env = build_tmux_env(None, "/bin/zsh".to_string(), None, None, None, None);
    assert_eq!(
        env.path,
        "/usr/local/bin:/usr/bin:/bin:/usr/sbin:/sbin:/opt/homebrew/bin:/opt/local/bin"
    );
    assert_eq!(env.lang, "en_US.UTF-8");
    assert_eq!(env.lc_all, "en_US.UTF-8");
    assert_eq!(env.term, "xterm-256color");
    assert_eq!(env.shell, "/bin/zsh");
    assert_eq!(env.home, None);

    let env = build_tmux_env(
        Some("/usr/bin"),
        "/bin/sh".to_string(),
        Some("/Users/me".to_string()),
        Some("de_DE.UTF-8"),
        Some("  "),
        Some("screen"),
    );
    assert_eq!(
        env.path,
        "/usr/local/bin:/usr/bin:/bin:/usr/sbin:/sbin:/opt/homebrew/bin:/opt/local/bin:/usr/bin"
    );
    assert_eq!(env.lang, "de_DE.UTF-8");
    assert_eq!(env.lc_all, "de_DE.UTF-8");
    assert_eq!(env.term, "screen");
    assert_eq!(env.home, Some("/Users/me".to_string()));

    let env = build_tmux_env(
        Some("/opt/homebrew/bin:/usr/local/bin"),
        "/bin/sh".to_string(),
        None,
        None,
        Some("C"),
        None,
    );
    assert_eq!(env.path, "/opt/homebrew/bin:/usr/local/bin");
    assert_eq!(env.lc_all, "C");
}

#[test]
fn binary_is_chosen_in_order_of_preference() {
    assert_eq!(
        resolve_tmux_bin(Some("/custom/tmux".to_string()), &[true, true, true, true]),
        "/custom/tmux"
    );
    assert_eq!(resolve_tmux_bin(None, &[false, true, false, true]), "/usr/local/bin/tmux");
    assert_eq!(resolve_tmux_bin(None, &[true, true, true, true]), "/opt/homebrew/bin/tmux");
    assert_eq!(resolve_tmux_bin(None, &[false, false, false, true]), "/usr/bin/tmux");
    assert_eq!(resolve_tmux_bin(None, &[false, false, false, false]), "tmux");
    assert_eq!(resolve_tmux_bin(None, &[]), "tmux");
}

#[test]
fn invocation_outcomes_are_read() {
    assert_eq!(run_tmux_command(true, "out".to_string(), "ignored"), Ok("out".to_string()));
    assert_eq!(
        run_tmux_command(false, "out".to_string(), "no server running"),
        Err("tmux 命令执行失败: no server running".to_string())
    );
    assert_eq!(run_tmux_status(true, "x"), Ok(()));
    assert_eq!(run_tmux_status(false, "bad"), Err("tmux 命令执行失败: bad".to_string()));
}

#[test]
fn session_options_are_trimmed() {
    assert_eq!(read_tmux_session_option(Some(" p1 \n")), Some("p1".to_string()));
    assert_eq!(read_tmux_session_option(Some("\n")), None);
    assert_eq!(read_tmux_session_option(None), None);
    assert_eq!(set_tmux_session_option("s", "@opt", "  "), None);
    assert_eq!(
        set_tmux_session_option("s", "@opt", " v "),
        Some(strings(&["set-option", "-t", "s", "@opt", "v"]))
    );
    assert_eq!(
        set_tmux_session_metadata("s", "p1", ""),
        vec![strings(&["set-option", "-t", "s", "@devhaven_project_id", "p1"])]
    );
    assert_eq!(
        set_tmux_session_metadata("s", "p1", "/tmp/p"),
        vec![
            strings(&["set-option", "-t", "s", "@devhaven_project_id", "p1"]),
            strings(&["set-option", "-t", "s", "@devhaven_project_path", "/tmp/p"]),
        ]
    );
    assert_eq!(
        apply_tmux_pane_style("s"),
        vec![
            strings(&["set-option", "-t", "s", "history-limit", "200000"]),
            strings(&["set-option", "-t", "s", "pane-border-style", "fg=#586e75,bg=default"]),
            strings(&[
                "set-option",
                "-t",
                "s",
                "pane-active-border-style",
                "fg=#268bd2,bg=default"
            ]),
        ]
    );
}

#[test]
fn session_path_prefers_the_recorded_one() {
    assert_eq!(
        resolve_tmux_session_path(Some("/rec".to_string()), Some("/pane\n")),
        Some("/rec".to_string())
    );
    assert_eq!(
        resolve_tmux_session_path(None, Some("\n   \n /pane/one \n/pane/two\n")),
        Some("/pane/one".to_string())
    );
    assert_eq!(resolve_tmux_session_path(None, Some("\n\n")), None);
    assert_eq!(resolve_tmux_session_path(None, None), None);
}

#[test]
fn registry_keeps_one_channel_per_session() {
    let mut manager = TerminalManager::new();
    assert_eq!(manager.control_count(), 0);
    assert!(manager.ensure_control_client("a"));
    manager.register_control_client("a");
    assert!(!manager.ensure_control_client("a"));
    assert!(manager.is_alive("a"));
    manager.register_control_client("b");
    manager.register_control_client("a");
    assert_eq!(manager.control_count(), 2);
    assert_eq!(manager.send_control_command_to(None), Ok("b".to_string()));
}

#[test]
fn commands_go_to_the_target_then_the_active_then_the_oldest() {
    let mut manager = TerminalManager::new();
    assert_eq!(manager.send_control_command_to(None), Err("控制客户端未启动".to_string()));
    manager.register_control_client("a");
    manager.register_control_client("b");
    assert_eq!(manager.send_control_command_to(None), Ok("a".to_string()));
    assert_eq!(manager.send_control_command_to(Some("b")), Ok("b".to_string()));
    assert_eq!(
        manager.send_control_command_to(Some("c")),
        Err("控制客户端未启动".to_string())
    );
    manager.switch_session("b");
    assert_eq!(manager.active_session(), Some("b".to_string()));
    assert_eq!(manager.send_control_command_to(None), Ok("b".to_string()));
    manager.switch_session("gone");
    assert_eq!(manager.send_control_command_to(None), Ok("a".to_string()));
}

#[test]
fn an_unhealthy_channel_is_not_used_and_is_replaced() {
    let mut manager = TerminalManager::new();
    manager.register_control_client("a");
    manager.mark_unhealthy("a");
    assert!(!manager.is_alive("a"));
    assert_eq!(manager.send_control_command_to(Some("a")), Err("控制客户端不可用".to_string()));
    assert!(manager.ensure_control_client("a"));
    assert_eq!(manager.control_count(), 0);
    manager.register_control_client("a");
    assert_eq!(manager.send_control_command_to(Some("a")), Ok("a".to_string()));
}

#[test]
fn closing_a_session_forgets_it() {
    let mut manager = TerminalManager::new();
    manager.register_control_client("a");
    manager.switch_session("a");
    assert!(manager.close_session("a"));
    assert_eq!(manager.active_session(), None);
    assert_eq!(manager.control_count(), 0);
    assert!(!manager.close_session("a"));
    manager.switch_session("b");
    assert!(!manager.close_session("a"));
    assert_eq!(manager.active_session(), Some("b".to_string()));
    assert!(!manager.drop_control_client("zzz"));
}

#[test]
fn control_results_become_outcomes() {
    assert_eq!(
        control_outcome(Some(ControlCommandResult::Success { output: "x".to_string() })),
        Ok(())
    );
    assert_eq!(
        control_outcome(Some(ControlCommandResult::Error {
            message: "控制命令失败: %error 1 2 3".to_string(),
            output: "x".to_string(),
        })),
        Err("控制命令失败: %error 1 2 3".to_string())
    );
    assert_eq!(control_outcome(None), Err("控制命令超时".to_string()));
    assert_eq!(send_control_or_fallback(&Ok(())), NextStep::Done);
    assert_eq!(send_control_or_fallback(&control_outcome(None)), NextStep::Fallback);
    assert_eq!(
        send_control_or_fallback(&Err("控制客户端未启动".to_string())),
        NextStep::Fallback
    );
}

#[test]
fn closing_tolerates_a_session_that_is_gone() {
    assert_eq!(close_outcome(Ok(())), Ok(()));
    assert_eq!(
        close_outcome(Err("tmux 命令执行失败: no server running on /tmp/x".to_string())),
        Ok(())
    );
    assert_eq!(
        close_outcome(Err("tmux 命令执行失败: can't find session: a".to_string())),
        Ok(())
    );
    assert_eq!(
        close_outcome(Err("tmux 命令执行失败: permission denied".to_string())),
        Err("tmux 命令执行失败: permission denied".to_string())
    );
}
