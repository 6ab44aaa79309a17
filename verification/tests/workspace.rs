use devhaven::filesystem::{
    contains_zero, discover_projects, is_markdown_file, list_dir_entries, list_failure,
    list_markdown_files, normalize_path, read_failure, read_file, read_notes,
    should_skip_dir, should_skip_direct_dir, should_skip_recursive_dir, write_file, RawEntry,
    MAX_FILE_PREVIEW_BYTES,
};
use devhaven::git_daily::{
    collect_git_daily, collect_single, count_daily, normalize_identity_value, IdentityMatcher,
    LogOutcome,
};
use devhaven::interaction_lock::InteractionLockState;
use devhaven::models::{
    AppSettings, EditorOpenParams, FsEntryKind, FsFailureReason, GitDailyResult, GitIdentity,
    HeatmapCacheFile, MarkdownFileEntry, OpenToolSettings, TerminalOpenParams,
};
use devhaven::sorting::{order_by_text, order_descending, sort_and_dedup};
use devhaven::system::{
    build_command_arguments, open_in_editor, open_in_finder, open_in_terminal, replace_text,
    EditorAttempt, TerminalLaunch,
};
use devhaven::worktree_setup::{
    copy_failure, copy_setup_directory, load_setup_commands, prepare_worktree_environment,
    resolve_shell, setup_command_status, summarize_command_output, SetupCopy, SetupOutput,
};

fn strings(items: &[&str]) -> Vec<String> {
    items.iter().map(|s| s.to_string()).collect()
}

#[test]
fn command_arguments_put_the_path_in_place() {
    assert_eq!(build_command_arguments(None, "/p"), strings(&["/p"]));
    assert_eq!(
        build_command_arguments(Some(strings(&["-n", "--dir={path}", "{path}{path}"])), "/p q"),
        strings(&["-n", "--dir=/p q", "/p q/p q"])
    );
    assert_eq!(
        build_command_arguments(Some(strings(&["-n", "{pat}"])), "/p"),
        strings(&["-n", "{pat}", "/p"])
    );
    assert_eq!(build_command_arguments(Some(Vec::new()), "/p"), strings(&["/p"]));
    let chars = |s: &str| -> Vec<char> { s.chars().collect() };
    assert_eq!(replace_text(&chars("aaa"), &chars("aa"), &chars("b")), chars("ba"));
    assert_eq!(replace_text(&chars("a\"b\""), &chars("\""), &chars("\\\"")), chars("a\\\"b\\\""));
}

#[test]
fn paths_are_opened_by_the_right_tool() {
    assert_eq!(open_in_finder("/p"), strings(&["-R", "/p"]));
    let tool = TerminalOpenParams {
        path: "/p".to_string(),
        command_path: Some("/usr/bin/kitty".to_string()),
        arguments: Some(strings(&["--directory", "{path}"])),
    };
    assert_eq!(
        open_in_terminal(tool, true),
        TerminalLaunch::Tool {
            command_path: "/usr/bin/kitty".to_string(),
            arguments: strings(&["--directory", "/p"]),
        }
    );
    let plain = |path: &str| TerminalOpenParams {
        path: path.to_string(),
        command_path: None,
        arguments: Some(strings(&["ignored"])),
    };
    assert_eq!(
        open_in_terminal(plain("/my \"dir\""), true),
        TerminalLaunch::Script {
            script: "tell application \"Terminal\"\n    do script \"cd \\\"/my \\\"dir\\\"\\\"\"\n    activate\nend tell".to_string()
        }
    );
    assert_eq!(
        open_in_terminal(plain("/p"), false),
        TerminalLaunch::Default { path: "/p".to_string() }
    );
    let editor = EditorOpenParams {
        path: "/p".to_string(),
        app_name: Some("Zed".to_string()),
        bundle_id: Some("dev.zed.Zed".to_string()),
        command_path: Some("/usr/local/bin/zed".to_string()),
        arguments: Some(strings(&["-n"])),
    };
    assert_eq!(
        open_in_editor(editor.clone(), true),
        vec![
            EditorAttempt {
                program: "/usr/bin/open".to_string(),
                arguments: strings(&["-a", "Zed", "/p"]),
            },
            EditorAttempt {
                program: "/usr/bin/open".to_string(),
                arguments: strings(&["-b", "dev.zed.Zed", "/p"]),
            },
            EditorAttempt {
                program: "/usr/local/bin/zed".to_string(),
                arguments: strings(&["-n", "/p"]),
            },
        ]
    );
    assert_eq!(
        open_in_editor(editor, false),
        vec![EditorAttempt {
            program: "/usr/local/bin/zed".to_string(),
            arguments: strings(&["-n", "/p"]),
        }]
    );
    let nothing = EditorOpenParams {
        path: "/p".to_string(),
        app_name: None,
        bundle_id: None,
        command_path: None,
        arguments: None,
    };
    assert_eq!(open_in_editor(nothing, true), Vec::<EditorAttempt>::new());
}

#[test]
fn interaction_lock_counts_its_holders() {
    let mut lock = InteractionLockState::new();
    assert!(!lock.is_locked());
    assert_eq!(lock.snapshot().reason, None);
    assert_eq!(lock.unlock(), None);

    let first = lock.lock(Some("creating worktree".to_string())).expect("first holder");
    assert!(first.locked);
    assert_eq!(first.reason, Some("creating worktree".to_string()));
    assert!(lock.is_locked());
    assert_eq!(lock.lock(Some("second".to_string())), None);
    let seen = lock.snapshot();
    assert!(seen.locked);
    assert_eq!(seen.reason, Some("creating worktree".to_string()));

    assert_eq!(lock.unlock(), None);
    assert!(lock.is_locked());
    let released = lock.unlock().expect("last holder");
    assert!(!released.locked);
    assert_eq!(released.reason, None);
    assert!(!lock.is_locked());
    assert_eq!(lock.snapshot().reason, None);
    assert_eq!(lock.unlock(), None);
}

#[test]
fn identities_are_compared_trimmed_and_in_lower_case() {
    assert_eq!(normalize_identity_value("  Ada Lovelace "), Some("ada lovelace".to_string()));
    assert_eq!(normalize_identity_value("ÄB"), Some("äb".to_string()));
    assert_eq!(normalize_identity_value("   "), None);
    let everyone = IdentityMatcher::new(&Vec::new());
    assert!(everyone.matches("anyone", "any@where"));
    let blank = IdentityMatcher::new(&vec![GitIdentity { name: " ".to_string(), email: String::new() }]);
    assert!(blank.matches("anyone", ""));
    let ada = IdentityMatcher::new(&vec![GitIdentity {
        name: "Ada".to_string(),
        email: "ADA@example.com ".to_string(),
    }]);
    assert!(ada.matches(" ada ", "other@example.com"));
    assert!(ada.matches("someone", "ada@EXAMPLE.com"));
    assert!(!ada.matches("bob", "bob@example.com"));
    assert!(!ada.matches("", ""));
}

#[test]
fn commits_are_counted_per_day() {
    let everyone = IdentityMatcher::new(&Vec::new());
    let log = "Ada\u{1f}ada@x\u{1f}2026-01-02\nBob\u{1f}bob@x\u{1f}2026-01-01\n\nAda\u{1f}ada@x\u{1f} 2026-01-02 \nAda\u{1f}ada@x\nAda\u{1f}ada@x\u{1f}2025-12-31\u{1f}extra\n";
    assert_eq!(
        count_daily(log, &everyone),
        Some("2025-12-31:1,2026-01-01:1,2026-01-02:2".to_string())
    );
    let ada = IdentityMatcher::new(&vec![GitIdentity {
        name: "ada".to_string(),
        email: String::new(),
    }]);
    assert_eq!(count_daily(log, &ada), Some("2025-12-31:1,2026-01-02:2".to_string()));
    let nobody = IdentityMatcher::new(&vec![GitIdentity {
        name: "zed".to_string(),
        email: String::new(),
    }]);
    assert_eq!(count_daily(log, &nobody), None);
    assert_eq!(count_daily("", &everyone), None);
    let many: String = (0..12).map(|_| "a\u{1f}b\u{1f}d\n").collect();
    assert_eq!(count_daily(&many, &everyone), Some("d:12".to_string()));
}

#[test]
fn daily_results_carry_failures() {
    let everyone = IdentityMatcher::new(&Vec::new());
    assert_eq!(
        collect_single("/r", &LogOutcome::NoRepository, &everyone),
        GitDailyResult { path: "/r".to_string(), git_daily: None, error: None }
    );
    assert_eq!(
        collect_single("/r", &LogOutcome::NotStarted("no git".to_string()), &everyone),
        GitDailyResult {
            path: "/r".to_string(),
            git_daily: None,
            error: Some("执行 git log 失败: no git".to_string()),
        }
    );
    assert_eq!(
        collect_single("/r", &LogOutcome::Failed("fatal: bad".to_string()), &everyone),
        GitDailyResult {
            path: "/r".to_string(),
            git_daily: None,
            error: Some("git log 返回失败: fatal: bad".to_string()),
        }
    );
    let logs = vec![
        ("/a".to_string(), LogOutcome::Printed("n\u{1f}e\u{1f}2026-01-01".to_string())),
        ("/b".to_string(), LogOutcome::NoRepository),
    ];
    let results = collect_git_daily(&logs, &Vec::new());
    assert_eq!(results.len(), 2);
    assert_eq!(results[0].path, "/a");
    assert_eq!(results[0].git_daily, Some("2026-01-01:1".to_string()));
    assert_eq!(results[1].git_daily, None);
}

#[test]
fn setup_warnings_are_joined() {
    assert_eq!(prepare_worktree_environment(Ok(()), Ok(())), None);
    assert_eq!(
        prepare_worktree_environment(Err("denied".to_string()), Ok(())),
        Some("复制 .devhaven 目录失败：denied".to_string())
    );
    assert_eq!(
        prepare_worktree_environment(Ok(()), Err("setup broke".to_string())),
        Some("setup broke".to_string())
    );
    assert_eq!(
        prepare_worktree_environment(Err("denied".to_string()), Err("setup broke".to_string())),
        Some("复制 .devhaven 目录失败：denied\nsetup broke".to_string())
    );
}

#[test]
fn setup_directory_is_copied_once() {
    assert_eq!(copy_setup_directory(false, false, false), Ok(SetupCopy::Skip));
    assert_eq!(copy_setup_directory(true, false, false), Err("源 .devhaven 不是目录".to_string()));
    assert_eq!(copy_setup_directory(true, true, true), Ok(SetupCopy::Skip));
    assert_eq!(copy_setup_directory(true, true, false), Ok(SetupCopy::Copy));
    assert_eq!(copy_failure("/a", "/b", "denied"), "/a -> /b 复制失败：denied");
}

#[test]
fn setup_commands_are_trimmed_and_reported() {
    assert_eq!(
        load_setup_commands(&strings(&[" npm ci ", "", "  ", "make"])),
        strings(&["npm ci", "make"])
    );
    assert_eq!(summarize_command_output(" ", "\n"), "命令无输出");
    assert_eq!(summarize_command_output(" out ", ""), "stdout:\nout");
    assert_eq!(summarize_command_output("", " err "), "stderr:\nerr");
    assert_eq!(summarize_command_output("out", "err"), "stdout:\nout\n\nstderr:\nerr");
    let long = "x".repeat(5000);
    let summary = summarize_command_output(&long, "");
    assert_eq!(summary.chars().count(), 4000 + "\n...(输出已截断)".chars().count());
    assert!(summary.starts_with("stdout:\nxxx"));
    assert!(summary.ends_with("x\n...(输出已截断)"));
    let ok = SetupOutput { success: true, code: Some(0), stdout: String::new(), stderr: String::new() };
    assert_eq!(setup_command_status("make", &ok), Ok(()));
    let failed = SetupOutput {
        success: false,
        code: Some(2),
        stdout: "building".to_string(),
        stderr: "boom".to_string(),
    };
    assert_eq!(
        setup_command_status("make all", &failed),
        Err("环境初始化命令执行失败：\n$ make all\n退出码：2\nstdout:\nbuilding\n\nstderr:\nboom".to_string())
    );
    let killed = SetupOutput { success: false, code: None, stdout: String::new(), stderr: String::new() };
    assert_eq!(
        setup_command_status("sleep 9", &killed),
        Err("环境初始化命令执行失败：\n$ sleep 9\n退出码：unknown\n命令无输出".to_string())
    );
    assert_eq!(resolve_shell(None), ("/bin/zsh".to_string(), strings(&["-lc"])));
    assert_eq!(
        resolve_shell(Some("/bin/fish".to_string())),
        ("/bin/fish".to_string(), strings(&["-lc"]))
    );
}

#[test]
fn files_are_checked_before_they_are_shown() {
    assert_eq!(MAX_FILE_PREVIEW_BYTES, 512 * 1024);
    let shown = read_file("a.txt", 5, b"hello".to_vec());
    assert!(shown.ok);
    assert_eq!(shown.content, Some("hello".to_string()));
    assert_eq!(shown.size, 5);
    assert_eq!(shown.max_size, MAX_FILE_PREVIEW_BYTES);
    assert_eq!(shown.reason, None);
    let unicode = read_file("a.txt", 6, "中文".as_bytes().to_vec());
    assert_eq!(unicode.content, Some("中文".to_string()));
    let large = read_file("a.bin", MAX_FILE_PREVIEW_BYTES + 1, Vec::new());
    assert!(!large.ok);
    assert_eq!(large.reason, Some(FsFailureReason::TooLarge));
    assert_eq!(large.size, MAX_FILE_PREVIEW_BYTES + 1);
    let zero = read_file("a.bin", 3, vec![b'a', 0, b'b']);
    assert_eq!(zero.reason, Some(FsFailureReason::Binary));
    assert_eq!(zero.content, None);
    let broken = read_file("a.bin", 2, vec![0xC3, 0x28]);
    assert_eq!(broken.reason, Some(FsFailureReason::Binary));
    let cut = read_file("a.bin", 2, vec![b'a', 0xE4]);
    assert_eq!(cut.reason, Some(FsFailureReason::Binary));
    assert!(contains_zero(&[1, 0]));
    assert!(!contains_zero(&[]));
    let missing = read_failure("x", 0, FsFailureReason::NotFound, Some("读取文件失败: gone".to_string()));
    assert!(!missing.ok);
    assert_eq!(missing.message, Some("读取文件失败: gone".to_string()));
}

#[test]
fn content_is_checked_before_it_is_written() {
    let fine = write_file("a.txt", "héllo");
    assert!(fine.ok);
    assert_eq!(fine.size, 6);
    assert_eq!(fine.reason, None);
    let zero = write_file("a.txt", "a\0b");
    assert!(!zero.ok);
    assert_eq!(zero.reason, Some(FsFailureReason::Binary));
    assert_eq!(zero.size, 3);
    let large = write_file("a.txt", &"x".repeat(512 * 1024 + 1));
    assert_eq!(large.reason, Some(FsFailureReason::TooLarge));
    assert_eq!(large.size, 512 * 1024 + 1);
    assert!(write_file("a.txt", &"x".repeat(512 * 1024)).ok);
}

fn raw(name: &str, dir: bool, size: Option<u64>) -> RawEntry {
    RawEntry {
        name: name.to_string(),
        relative_path: format!("sub\\{name}"),
        is_symlink: false,
        is_dir: dir,
        is_file: !dir,
        size,
    }
}

#[test]
fn directories_are_listed_first_and_by_name() {
    let mut link = raw("link", false, Some(1));
    link.is_symlink = true;
    let mut socket = raw("socket", false, None);
    socket.is_file = false;
    let found = vec![
        raw("b.txt", false, Some(2)),
        raw("Zeta", true, Some(9)),
        raw(".hidden", false, Some(3)),
        link,
        raw("alpha", true, None),
        socket,
        raw("A.txt", false, Some(1)),
    ];
    let listing = list_dir_entries("sub", &found, false);
    assert!(listing.ok);
    assert_eq!(listing.relative_path, "sub");
    let names: Vec<(&str, FsEntryKind, Option<u64>)> =
        listing.entries.iter().map(|e| (e.name.as_str(), e.kind, e.size)).collect();
    assert_eq!(
        names,
        vec![
            ("alpha", FsEntryKind::Dir, None),
            ("Zeta", FsEntryKind::Dir, None),
            ("A.txt", FsEntryKind::File, Some(1)),
            ("b.txt", FsEntryKind::File, Some(2)),
        ]
    );
    assert_eq!(listing.entries[0].relative_path, "sub/alpha");
    let with_hidden = list_dir_entries("sub", &found, true);
    assert_eq!(with_hidden.entries.len(), 5);
    assert_eq!(with_hidden.entries[2].name, ".hidden");
    let refused = list_failure("sub", FsFailureReason::NotADirectory, None);
    assert!(!refused.ok && refused.entries.is_empty());
}

#[test]
fn markdown_and_project_rules() {
    assert!(is_markdown_file(Some("md")));
    assert!(is_markdown_file(Some("MD")));
    assert!(!is_markdown_file(Some("mdx")));
    assert!(!is_markdown_file(None));
    for name in [".git", ".cache", "node_modules", "target", "dist", "build"] {
        assert!(should_skip_dir(name));
        assert!(should_skip_recursive_dir(name));
    }
    assert!(!should_skip_dir("src"));
    assert!(!should_skip_dir(""));
    assert!(should_skip_direct_dir(".git"));
    assert!(!should_skip_direct_dir("node_modules"));
    assert_eq!(normalize_path("a\\b/c"), "a/b/c");
    let entry = |path: &str| MarkdownFileEntry {
        path: path.to_string(),
        absolute_path: format!("/root/{path}"),
    };
    assert_eq!(
        list_markdown_files(&vec![entry("docs/b.md"), entry("README.md"), entry("docs/a.md")]),
        vec![entry("README.md"), entry("docs/a.md"), entry("docs/b.md")]
    );
    assert_eq!(
        discover_projects(&strings(&["/w/b", "/w/a", "/w/b", "/w/a/x", "/w/a"])),
        strings(&["/w/a", "/w/a/x", "/w/b"])
    );
    assert_eq!(read_notes(Some(" note \n".to_string())), Some(" note \n".to_string()));
    assert_eq!(read_notes(Some(" \n".to_string())), None);
    assert_eq!(read_notes(None), None);
}

#[test]
fn orders_are_stable() {
    assert_eq!(order_by_text(&strings(&["b", "a", "b", "", "a"])), vec![3, 1, 4, 0, 2]);
    assert_eq!(order_descending(&vec![1, 5, 3, 5, -2]), vec![1, 3, 2, 0, 4]);
    assert_eq!(sort_and_dedup(&strings(&[])), Vec::<String>::new());
}

#[test]
fn defaults() {
    let settings = AppSettings::default();
    assert!(settings.terminal_use_webgl_renderer);
    assert_eq!(settings.terminal_theme, "DevHaven Dark");
    assert!(!settings.show_monitor_window);
    assert!(settings.git_identities.is_empty());
    assert_eq!(settings.editor_open_tool, OpenToolSettings::default());
    let tool = OpenToolSettings::default();
    assert!(tool.command_path.is_empty() && tool.arguments.is_empty());
    let cache = HeatmapCacheFile::default();
    assert_eq!(cache.version, 1);
    assert!(cache.daily_activity.is_empty());
    assert_eq!(cache.project_count, 0);
}
