use devhaven::git_ops::{
    bytes_to_text, checkout_branch, command_status, commit, delete_branch,
    delete_branch_status, diff_contents, discard_files, execute_git_command,
    is_git_show_not_found, looks_binary, map_git_status_char, merge_streams,
    normalize_delete_branch_error, normalize_worktree_add_error,
    normalize_worktree_remove_error, path_command_status, resolve_git_executable,
    stage_files, string_from_utf8_lossy, truncate_bytes, unstage_files, GitCommandResult,
    GitOutput,
};
use devhaven::git_plan::{
    add_worktree, add_worktree_status, branch_exists_on_remote, fetch_origin_branch,
    get_diff_contents, has_origin_remote, read_git_object_optional, ref_exists_locally,
    remove_worktree, remove_worktree_status, resolve_create_branch_start_point,
    resolve_default_worktree_path, resolve_repo_name, resolve_worktree_target_path,
    should_prune, DiffPlan, DiffSource, RemoteBranchCheck, ShowOutput, StartPointProbe,
    MAX_FILE_BYTES,
};
use devhaven::git_status::{get_repo_status, list_branches, parse_porcelain_v2_status};
use devhaven::git_worktree::{
    canonical_key, list_worktrees, normalize_path_for_compare, parse_worktree_list_output,
    parse_worktree_records, select_worktrees, WorktreeRecord,
};
use devhaven::models::{
    BranchListItem, GitChangedFile, GitFileStatus, GitWorktreeAddResult, GitWorktreeListItem,
};

fn strings(items: &[&str]) -> Vec<String> {
    items.iter().map(|s| s.to_string()).collect()
}

fn output(success: bool, stdout: &str, stderr: &str) -> GitOutput {
    GitOutput { success, stdout: stdout.to_string(), stderr: stderr.to_string() }
}

fn failed(text: &str) -> GitCommandResult {
    GitCommandResult { success: false, output: text.to_string() }
}

fn succeeded(text: &str) -> GitCommandResult {
    GitCommandResult { success: true, output: text.to_string() }
}

#[test]
fn parse_worktree_list_output_filters_base_and_detached() {
    let output = r#"
worktree /repo/main
HEAD 111111
branch refs/heads/main

worktree /repo/feature-a
HEAD 222222
branch refs/heads/feature/a

worktree /repo/detached
HEAD 333333
detached
"#;

    let items = parse_worktree_list_output("/repo/main", output);
    assert_eq!(items.len(), 1);
    assert_eq!(items[0].path, "/repo/feature-a");
    assert_eq!(items[0].branch, "feature/a");
}

#[test]
fn parse_worktree_list_output_accepts_branch_without_refs_prefix() {
    let output = r#"
worktree /repo/main
HEAD 111111
branch refs/heads/main

worktree /repo/release
HEAD 222222
branch release/1.0
"#;

    let items = parse_worktree_list_output("/repo/main", output);
    assert_eq!(items.len(), 1);
    assert_eq!(items[0].path, "/repo/release");
    assert_eq!(items[0].branch, "release/1.0");
}

#[test]
fn worktrees_come_out_in_the_order_of_their_paths() {
    let output = "worktree /w/zeta\nbranch refs/heads/z\n\nworktree /w/alpha\nbranch refs/heads/a\n\nworktree /w/Beta\nbranch refs/heads/b\n\nworktree /w/alpha\nbranch refs/heads/a2\n";
    let items = parse_worktree_list_output("/repo", output);
    let listed: Vec<(String, String)> =
        items.into_iter().map(|item| (item.path, item.branch)).collect();
    assert_eq!(
        listed,
        vec![
            ("/w/Beta".to_string(), "b".to_string()),
            ("/w/alpha".to_string(), "a".to_string()),
            ("/w/alpha".to_string(), "a2".to_string()),
            ("/w/zeta".to_string(), "z".to_string()),
        ]
    );
}

#[test]
fn worktree_records_keep_every_entry() {
    let records = parse_worktree_records(
        "worktree /a\nbranch refs/heads/x\nworktree /b\ndetached\n\nbranch orphan\n\nworktree  /c \n",
    );
    assert_eq!(
        records,
        vec![
            WorktreeRecord { path: "/a".to_string(), branch: "x".to_string(), detached: false },
            WorktreeRecord { path: "/b".to_string(), branch: String::new(), detached: true },
            WorktreeRecord { path: "/c".to_string(), branch: String::new(), detached: false },
        ]
    );
}

#[test]
fn worktrees_are_selected_by_the_keys_given() {
    let records = vec![
        WorktreeRecord {
            path: "/private/var/repo".to_string(),
            branch: "main".to_string(),
            detached: false,
        },
        WorktreeRecord { path: "/w/b".to_string(), branch: "b".to_string(), detached: false },
        WorktreeRecord { path: "/w/a".to_string(), branch: "a".to_string(), detached: false },
    ];
    let keys = strings(&["/private/var/repo", "/w/b"]);
    let items = select_worktrees(&records, &keys, "/private/var/repo");
    assert_eq!(
        items,
        vec![GitWorktreeListItem { path: "/w/b".to_string(), branch: "b".to_string() }]
    );
}

#[test]
fn paths_are_normalized_for_comparison() {
    assert_eq!(normalize_path_for_compare("  /repo/main/  "), "/repo/main");
    assert_eq!(normalize_path_for_compare("C:\\repo\\main\\"), "C:/repo/main");
    assert_eq!(normalize_path_for_compare("/repo//"), "/repo");
    assert_eq!(normalize_path_for_compare("   "), "");
    assert_eq!(normalize_path_for_compare("/"), "");
    assert_eq!(canonical_key("/private/var/x/"), "/private/var/x");
}

#[test]
fn list_worktrees_needs_a_repository_and_a_listing() {
    assert_eq!(list_worktrees(false, "/r", succeeded("")), Err("不是 Git 仓库".to_string()));
    assert_eq!(list_worktrees(true, "/r", failed("fatal: x")), Err("fatal: x".to_string()));
    assert_eq!(
        list_worktrees(true, "/r", succeeded("worktree /r\nbranch refs/heads/main\n\nworktree /w\nbranch refs/heads/f")),
        Ok(vec![GitWorktreeListItem { path: "/w".to_string(), branch: "f".to_string() }])
    );
}

#[test]
fn command_output_is_trimmed_and_merged() {
    let ok = execute_git_command(Ok(output(true, "  out \n", "warning")));
    assert!(ok.success);
    assert_eq!(ok.output, "out");
    let both = execute_git_command(Ok(output(false, " out ", " err\n")));
    assert!(!both.success);
    assert_eq!(both.output, "out\nerr");
    let only_err = execute_git_command(Ok(output(false, "", "fatal: bad\n")));
    assert_eq!(only_err.output, "fatal: bad");
    let only_out = execute_git_command(Ok(output(false, "said\n", "  ")));
    assert_eq!(only_out.output, "said");
    let not_started = execute_git_command(Err("No such file".to_string()));
    assert!(!not_started.success);
    assert_eq!(not_started.output, "执行命令失败: No such file");
    assert_eq!(merge_streams(" a ", ""), "a");
    assert_eq!(merge_streams("", " b "), "b");
    assert_eq!(merge_streams("a", "b"), "a\nb");
    assert_eq!(command_status(succeeded("x")), Ok(()));
    assert_eq!(command_status(failed("x")), Err("x".to_string()));
    assert_eq!(path_command_status(&output(true, "", "")), Ok(()));
    assert_eq!(path_command_status(&output(false, "o", "e")), Err("o\ne".to_string()));
    assert_eq!(resolve_git_executable(true), "/usr/bin/git");
    assert_eq!(resolve_git_executable(false), "git");
}

#[test]
fn path_operations_build_commands() {
    let paths = strings(&["a.txt", "dir/b c.txt"]);
    assert_eq!(stage_files(false, &paths), Err("不是 Git 仓库".to_string()));
    assert_eq!(stage_files(true, &Vec::new()), Ok(None));
    assert_eq!(
        stage_files(true, &paths),
        Ok(Some(strings(&["add", "--", "a.txt", "dir/b c.txt"])))
    );
    assert_eq!(
        unstage_files(true, &paths),
        Ok(Some(strings(&["reset", "HEAD", "--", "a.txt", "dir/b c.txt"])))
    );
    assert_eq!(
        discard_files(true, &paths),
        Ok(Some(strings(&["checkout", "--", "a.txt", "dir/b c.txt"])))
    );
    assert_eq!(unstage_files(false, &Vec::new()), Err("不是 Git 仓库".to_string()));
}

#[test]
fn commit_and_branch_operations_validate_their_input() {
    assert_eq!(commit(false, "m"), Err("不是 Git 仓库".to_string()));
    assert_eq!(commit(true, "  \n"), Err("提交信息不能为空".to_string()));
    assert_eq!(commit(true, " fix: it \n"), Ok(strings(&["commit", "-m", "fix: it"])));
    assert_eq!(checkout_branch(false, "main"), Err("不是 Git 仓库".to_string()));
    assert_eq!(checkout_branch(true, " "), Err("分支名不能为空".to_string()));
    assert_eq!(checkout_branch(true, " main "), Ok(strings(&["checkout", "main"])));
    assert_eq!(delete_branch(false, "x", true), Err("不是 Git 仓库".to_string()));
    assert_eq!(delete_branch(true, "", false), Err("分支名不能为空".to_string()));
    assert_eq!(delete_branch(true, "x", false), Ok(strings(&["branch", "-d", "x"])));
    assert_eq!(delete_branch(true, " x ", true), Ok(strings(&["branch", "-D", "x"])));
}

#[test]
fn delete_branch_errors_are_normalized() {
    assert_eq!(
        normalize_delete_branch_error("fatal: Not a git repository", false),
        "不是 Git 仓库"
    );
    assert_eq!(
        normalize_delete_branch_error("error: branch 'x' not found.", false),
        "分支不存在或已删除"
    );
    assert_eq!(
        normalize_delete_branch_error("error: Cannot delete branch 'x' checked out at '/w'", true),
        "分支正在当前仓库或其他 worktree 中使用，无法删除"
    );
    assert_eq!(
        normalize_delete_branch_error("error: The branch 'x' is not fully merged.", false),
        "分支包含未合并提交，无法删除。请先合并后重试"
    );
    assert_eq!(
        normalize_delete_branch_error("error: The branch 'x' is not fully merged.", true),
        "error: The branch 'x' is not fully merged."
    );
    assert_eq!(normalize_delete_branch_error("other", false), "other");
    assert_eq!(delete_branch_status(succeeded(""), false), Ok(()));
    assert_eq!(
        delete_branch_status(failed("branch not found"), false),
        Err("分支不存在或已删除".to_string())
    );
}

#[test]
fn worktree_errors_are_normalized() {
    assert_eq!(
        normalize_worktree_add_error("fatal: 'x' is already checked out at '/w'", true),
        "该分支已在其他 worktree 检出，请切换分支或先移除旧 worktree"
    );
    assert_eq!(
        normalize_worktree_add_error("fatal: a branch named 'x' already exists", true),
        "分支已存在，请改用“已有分支”模式或更换分支名"
    );
    assert_eq!(
        normalize_worktree_add_error("fatal: a branch named 'x' already exists", false),
        "目标目录已存在，无法创建 worktree"
    );
    assert_eq!(
        normalize_worktree_add_error("fatal: '/w' already exists", true),
        "目标目录已存在，无法创建 worktree"
    );
    assert_eq!(
        normalize_worktree_add_error("fatal: not a git repository", true),
        "不是 Git 仓库"
    );
    assert_eq!(
        normalize_worktree_add_error("fatal: invalid reference: nope", false),
        "分支不存在或不可用，请检查分支名称"
    );
    assert_eq!(normalize_worktree_add_error("boom", false), "boom");

    assert_eq!(
        normalize_worktree_remove_error("fatal: not a git repository", false),
        "不是 Git 仓库"
    );
    assert_eq!(
        normalize_worktree_remove_error("fatal: '/w' is not a working tree", false),
        "worktree 不存在或已移除"
    );
    assert_eq!(
        normalize_worktree_remove_error("fatal: '/w' contains modified or untracked files", false),
        "该 worktree 存在未提交修改，无法删除。请先提交/清理，或使用“强制删除”"
    );
    assert_eq!(
        normalize_worktree_remove_error("fatal: cannot remove a dirty worktree", true),
        "强制删除失败：worktree 可能被进程占用或被锁定，请先关闭相关终端/编辑器后重试"
    );
    assert_eq!(
        normalize_worktree_remove_error("fatal: worktree is locked", false),
        "worktree 已锁定，无法删除。可先执行 git worktree unlock 后重试"
    );
    assert_eq!(normalize_worktree_remove_error("boom", true), "boom");
}

#[test]
fn binary_content_is_refused() {
    assert!(looks_binary(&[b'a', 0, b'b']));
    assert!(!looks_binary(b"text"));
    let mut late_zero = vec![b'a'; 8000];
    late_zero.push(0);
    assert!(!looks_binary(&late_zero));
    late_zero[7999] = 0;
    assert!(looks_binary(&late_zero));
    assert_eq!(bytes_to_text(None), Ok(String::new()));
    assert_eq!(bytes_to_text(Some(b"hello".to_vec())), Ok("hello".to_string()));
    assert_eq!(
        bytes_to_text(Some(vec![1, 0, 2])),
        Err("检测到二进制文件，无法以文本对比展示。".to_string())
    );
    assert_eq!(bytes_to_text(Some(vec![b'a', 0xFF, 0xE4, 0xB8])), Ok("a\u{FFFD}\u{FFFD}".to_string()));
    assert_eq!(string_from_utf8_lossy(vec![0xE4, 0xB8, 0xAD, 0xC2]), "中\u{FFFD}");
    assert_eq!(truncate_bytes(vec![1, 2, 3], 3), (vec![1, 2, 3], false));
    assert_eq!(truncate_bytes(vec![1, 2, 3], 2), (vec![1, 2], true));
    assert_eq!(truncate_bytes(vec![1, 2, 3], 0), (vec![], true));
}

#[test]
fn missing_objects_are_recognized() {
    assert!(is_git_show_not_found("fatal: path 'a' does not exist in 'HEAD'"));
    assert!(is_git_show_not_found("fatal: path 'a' exists on disk, but not in the index"));
    assert!(is_git_show_not_found("fatal: Invalid object name 'HEAD'"));
    assert!(is_git_show_not_found("fatal: ambiguous argument 'x'"));
    assert!(!is_git_show_not_found("fatal: permission denied"));
}

#[test]
fn status_letters_are_mapped() {
    assert_eq!(map_git_status_char('A'), GitFileStatus::Added);
    assert_eq!(map_git_status_char('M'), GitFileStatus::Modified);
    assert_eq!(map_git_status_char('D'), GitFileStatus::Deleted);
    assert_eq!(map_git_status_char('R'), GitFileStatus::Renamed);
    assert_eq!(map_git_status_char('C'), GitFileStatus::Copied);
    assert_eq!(map_git_status_char('?'), GitFileStatus::Untracked);
    assert_eq!(map_git_status_char('T'), GitFileStatus::Modified);
}

#[test]
fn diff_sides_are_planned() {
    assert_eq!(get_diff_contents(false, "a", true, None), Err("不是 Git 仓库".to_string()));
    assert_eq!(get_diff_contents(true, "  ", true, None), Err("路径为空".to_string()));
    assert_eq!(
        get_diff_contents(true, " src/a.rs ", true, Some(" src/old.rs ")),
        Ok(DiffPlan {
            original: "HEAD:src/old.rs".to_string(),
            modified: DiffSource::GitObject(":src/a.rs".to_string()),
        })
    );
    assert_eq!(
        get_diff_contents(true, "src/a.rs", false, Some("  ")),
        Ok(DiffPlan {
            original: ":src/a.rs".to_string(),
            modified: DiffSource::WorktreeFile("src/a.rs".to_string()),
        })
    );
    assert_eq!(MAX_FILE_BYTES, 1_200_000);
}

#[test]
fn diff_sides_are_read() {
    let show = |success: bool, stdout: &[u8], stderr: &str| ShowOutput {
        success,
        stdout: stdout.to_vec(),
        stderr: stderr.to_string(),
    };
    assert_eq!(
        read_git_object_optional(Ok(show(true, b"abcdef", "")), 4),
        Ok((Some(b"abcd".to_vec()), true))
    );
    assert_eq!(
        read_git_object_optional(Ok(show(true, b"abc", "")), 4),
        Ok((Some(b"abc".to_vec()), false))
    );
    assert_eq!(
        read_git_object_optional(Ok(show(false, b"", "fatal: path 'a' does not exist in 'HEAD'\n")), 4),
        Ok((None, false))
    );
    assert_eq!(
        read_git_object_optional(Ok(show(false, b"out", "fatal: boom")), 4),
        Err("out\nfatal: boom".to_string())
    );
    assert_eq!(
        read_git_object_optional(Err("spawn".to_string()), 4),
        Err("执行命令失败: spawn".to_string())
    );
    let both = diff_contents(Some(b"old".to_vec()), false, Some(b"new".to_vec()), true)
        .expect("texts");
    assert_eq!(both.original, "old");
    assert_eq!(both.modified, "new");
    assert!(!both.original_truncated);
    assert!(both.modified_truncated);
    assert_eq!(
        diff_contents(None, false, Some(vec![0]), false),
        Err("检测到二进制文件，无法以文本对比展示。".to_string())
    );
}

#[test]
fn branches_are_listed_with_the_default_marked() {
    let listing = "  develop\n* main\n  feature/x\n\n";
    assert_eq!(list_branches(false, Some(listing), None), Vec::<BranchListItem>::new());
    assert_eq!(list_branches(true, None, None), Vec::<BranchListItem>::new());
    let names = |items: Vec<BranchListItem>| -> Vec<(String, bool)> {
        items.into_iter().map(|item| (item.name, item.is_main)).collect()
    };
    assert_eq!(
        names(list_branches(true, Some(listing), None)),
        vec![
            ("develop".to_string(), false),
            ("main".to_string(), true),
            ("feature/x".to_string(), false),
        ]
    );
    assert_eq!(
        names(list_branches(true, Some(listing), Some("refs/remotes/origin/develop"))),
        vec![
            ("develop".to_string(), true),
            ("main".to_string(), false),
            ("feature/x".to_string(), false),
        ]
    );
    assert_eq!(
        names(list_branches(true, Some(listing), Some("refs/remotes/origin/gone"))),
        vec![
            ("develop".to_string(), false),
            ("main".to_string(), true),
            ("feature/x".to_string(), false),
        ]
    );
    assert_eq!(
        names(list_branches(true, Some("master\ntopic"), None)),
        vec![("master".to_string(), true), ("topic".to_string(), false)]
    );
    assert_eq!(
        names(list_branches(true, Some("topic"), None)),
        vec![("topic".to_string(), false)]
    );
}

#[test]
fn porcelain_status_is_read() {
    let out = "# branch.oid abc\0# branch.head feature/x\0# branch.upstream origin/feature/x\0# branch.ab +2 -1\01 M. N... 100644 100644 100644 aaa bbb src/a b.rs\01 .M N... 100644 100644 100644 aaa bbb src/c.rs\02 R. N... 100644 100644 100644 aaa bbb R100 new name.rs\0old name.rs\01 AD N... 100644 100644 100644 aaa bbb both.rs\0? untracked file.txt\0! ignored.txt\0";
    let status = parse_porcelain_v2_status(out);
    assert_eq!(status.branch, "feature/x");
    assert_eq!(status.upstream, Some("origin/feature/x".to_string()));
    assert_eq!(status.ahead, 2);
    assert_eq!(status.behind, 1);
    assert_eq!(
        status.staged,
        vec![
            GitChangedFile {
                path: "src/a b.rs".to_string(),
                old_path: None,
                status: GitFileStatus::Modified,
            },
            GitChangedFile {
                path: "new name.rs".to_string(),
                old_path: Some("old name.rs".to_string()),
                status: GitFileStatus::Renamed,
            },
            GitChangedFile {
                path: "both.rs".to_string(),
                old_path: None,
                status: GitFileStatus::Added,
            },
        ]
    );
    assert_eq!(
        status.unstaged,
        vec![
            GitChangedFile {
                path: "src/c.rs".to_string(),
                old_path: None,
                status: GitFileStatus::Modified,
            },
            GitChangedFile {
                path: "both.rs".to_string(),
                old_path: None,
                status: GitFileStatus::Deleted,
            },
        ]
    );
    assert_eq!(
        status.untracked,
        vec![GitChangedFile {
            path: "untracked file.txt".to_string(),
            old_path: None,
            status: GitFileStatus::Untracked,
        }]
    );
}

#[test]
fn porcelain_status_without_headers() {
    let status = parse_porcelain_v2_status("");
    assert_eq!(status.branch, "HEAD");
    assert_eq!(status.upstream, None);
    assert_eq!((status.ahead, status.behind), (0, 0));
    assert!(status.staged.is_empty() && status.unstaged.is_empty() && status.untracked.is_empty());
    let odd = parse_porcelain_v2_status("# branch.ab +x\01 M\02 R. too short\0?\0#nothing\0u UU\0");
    assert_eq!((odd.ahead, odd.behind), (0, 0));
    assert!(odd.staged.is_empty() && odd.unstaged.is_empty() && odd.untracked.is_empty());
}

#[test]
fn repo_status_needs_a_repository_and_a_listing() {
    assert_eq!(get_repo_status(false, succeeded("")), Err("不是 Git 仓库".to_string()));
    assert_eq!(get_repo_status(true, failed("fatal")), Err("fatal".to_string()));
    let status = get_repo_status(true, succeeded("# branch.head main")).expect("status");
    assert_eq!(status.branch, "main");
}

#[test]
fn repository_names_are_sanitized() {
    assert_eq!(resolve_repo_name(Some("devhaven")), "devhaven");
    assert_eq!(resolve_repo_name(Some("my repo!")), "my-repo");
    assert_eq!(resolve_repo_name(Some(".hidden_")), "hidden");
    assert_eq!(resolve_repo_name(Some("---")), "repository");
    assert_eq!(resolve_repo_name(Some("  ")), "repository");
    assert_eq!(resolve_repo_name(None), "repository");
    assert_eq!(resolve_repo_name(Some("中文")), "repository");
    assert_eq!(resolve_repo_name(Some("a.b-c_d")), "a.b-c_d");
}

#[test]
fn default_worktree_paths_are_built_below_home() {
    assert_eq!(
        resolve_default_worktree_path(Some("/Users/me"), "repo", "feature/x"),
        Ok("/Users/me/.devhaven/worktrees/repo/feature/x".to_string())
    );
    assert_eq!(
        resolve_default_worktree_path(Some("/Users/me/"), "repo", "\\feature\\\\x/ /y/"),
        Ok("/Users/me/.devhaven/worktrees/repo/feature/x/y".to_string())
    );
    assert_eq!(
        resolve_default_worktree_path(None, "repo", "x"),
        Err("无法解析用户主目录".to_string())
    );
    assert_eq!(
        resolve_default_worktree_path(Some("/h"), "repo", "//"),
        Err("分支名不能为空".to_string())
    );
}

#[test]
fn worktree_targets_prefer_the_one_asked_for() {
    assert_eq!(
        resolve_worktree_target_path(Some("repo"), " ", Some("/t"), Some("/h")),
        Err("分支名不能为空".to_string())
    );
    assert_eq!(
        resolve_worktree_target_path(Some("repo"), "x", Some(" /t "), Some("/h")),
        Ok("/t".to_string())
    );
    assert_eq!(
        resolve_worktree_target_path(Some("repo"), " x ", Some("  "), Some("/h")),
        Ok("/h/.devhaven/worktrees/repo/x".to_string())
    );
    assert_eq!(
        resolve_worktree_target_path(Some("repo"), "x", None, Some("/h")),
        Ok("/h/.devhaven/worktrees/repo/x".to_string())
    );
    assert_eq!(
        resolve_worktree_target_path(Some("repo"), "x", Some("/t"), None),
        Err("无法解析用户主目录".to_string())
    );
}

fn probe(
    has_origin: bool,
    remote: RemoteBranchCheck,
    fetch_error: Option<&str>,
    remote_ref_local: bool,
    branch_local: bool,
) -> StartPointProbe {
    StartPointProbe {
        has_origin,
        remote,
        fetch_error: fetch_error.map(|e| e.to_string()),
        remote_ref_local,
        branch_local,
    }
}

#[test]
fn start_point_prefers_the_remote_reference() {
    let exists = || RemoteBranchCheck::Exists;
    assert_eq!(
        resolve_create_branch_start_point(true, " main ", &probe(true, exists(), None, true, true)),
        Ok("origin/main".to_string())
    );
    assert_eq!(
        resolve_create_branch_start_point(
            true,
            "main",
            &probe(true, exists(), Some("offline"), true, false)
        ),
        Ok("origin/main".to_string())
    );
    assert_eq!(
        resolve_create_branch_start_point(true, "main", &probe(true, exists(), None, false, true)),
        Ok("main".to_string())
    );
    assert_eq!(
        resolve_create_branch_start_point(
            true,
            "main",
            &probe(true, exists(), Some("offline"), false, false)
        ),
        Err("基线分支不可用：远端分支 origin/main 刷新失败，且本地不存在同名分支（offline）".to_string())
    );
    assert_eq!(
        resolve_create_branch_start_point(true, "main", &probe(true, exists(), None, false, false)),
        Err("基线分支不可用：远端分支 origin/main 无法在本地解析".to_string())
    );
}

#[test]
fn start_point_falls_back_to_the_local_branch() {
    assert_eq!(
        resolve_create_branch_start_point(
            false,
            "main",
            &probe(false, RemoteBranchCheck::NotFound, None, false, true)
        ),
        Err("不是 Git 仓库".to_string())
    );
    assert_eq!(
        resolve_create_branch_start_point(
            true,
            "  ",
            &probe(false, RemoteBranchCheck::NotFound, None, false, true)
        ),
        Err("基线分支不可用：分支名不能为空".to_string())
    );
    assert_eq!(
        resolve_create_branch_start_point(
            true,
            "dev",
            &probe(true, RemoteBranchCheck::NotFound, None, false, true)
        ),
        Ok("dev".to_string())
    );
    assert_eq!(
        resolve_create_branch_start_point(
            true,
            "dev",
            &probe(true, RemoteBranchCheck::NotFound, None, true, false)
        ),
        Err("基线分支不可用：远端与本地均不存在分支 dev".to_string())
    );
    assert_eq!(
        resolve_create_branch_start_point(
            true,
            "dev",
            &probe(true, RemoteBranchCheck::Error("timeout".to_string()), None, false, true)
        ),
        Ok("dev".to_string())
    );
    assert_eq!(
        resolve_create_branch_start_point(
            true,
            "dev",
            &probe(true, RemoteBranchCheck::Error("timeout".to_string()), None, false, false)
        ),
        Err("基线分支不可用：无法校验远端分支 dev，且本地不存在同名分支（timeout）".to_string())
    );
    assert_eq!(
        resolve_create_branch_start_point(
            true,
            "dev",
            &probe(false, RemoteBranchCheck::Exists, None, true, true)
        ),
        Ok("dev".to_string())
    );
    assert_eq!(
        resolve_create_branch_start_point(
            true,
            "dev",
            &probe(false, RemoteBranchCheck::Exists, None, true, false)
        ),
        Err("基线分支不可用：未找到本地分支 dev".to_string())
    );
}

#[test]
fn remote_probes_are_read() {
    assert_eq!(
        branch_exists_on_remote(Ok((output(true, "abc refs/heads/x", ""), Some(0)))),
        RemoteBranchCheck::Exists
    );
    assert_eq!(
        branch_exists_on_remote(Ok((output(false, "", ""), Some(2)))),
        RemoteBranchCheck::NotFound
    );
    assert_eq!(
        branch_exists_on_remote(Ok((output(false, "", " fatal: no route \n"), Some(128)))),
        RemoteBranchCheck::Error("fatal: no route".to_string())
    );
    assert_eq!(
        branch_exists_on_remote(Ok((output(false, "o", "e"), None))),
        RemoteBranchCheck::Error("o\ne".to_string())
    );
    assert_eq!(
        branch_exists_on_remote(Err("spawn".to_string())),
        RemoteBranchCheck::Error("执行命令失败: spawn".to_string())
    );
    assert!(has_origin_remote(&succeeded("git@host:x.git")));
    assert!(!has_origin_remote(&failed("error: No such remote 'origin'")));
    assert_eq!(fetch_origin_branch(succeeded("")), Ok(()));
    assert_eq!(fetch_origin_branch(failed("offline")), Err("offline".to_string()));
    assert_eq!(ref_exists_locally("  "), None);
    assert_eq!(
        ref_exists_locally(" origin/main "),
        Some(strings(&["rev-parse", "--verify", "--quiet", "origin/main^{commit}"]))
    );
}

#[test]
fn worktrees_are_added() {
    assert_eq!(add_worktree(false, "/t", false, "x", true, None), Err("不是 Git 仓库".to_string()));
    assert_eq!(add_worktree(true, "/t", false, " ", true, None), Err("分支名不能为空".to_string()));
    assert_eq!(
        add_worktree(true, "/t", true, "x", true, None),
        Err("目标目录已存在，无法创建 worktree".to_string())
    );
    assert_eq!(
        add_worktree(true, "/t", false, " x ", true, Some(" origin/main ")),
        Ok(strings(&["worktree", "add", "-b", "x", "/t", "origin/main"]))
    );
    assert_eq!(
        add_worktree(true, "/t", false, "x", true, Some("  ")),
        Ok(strings(&["worktree", "add", "-b", "x", "/t"]))
    );
    assert_eq!(
        add_worktree(true, "/t", false, "x", false, Some("origin/main")),
        Ok(strings(&["worktree", "add", "/t", "x"]))
    );
    assert_eq!(
        add_worktree_status(succeeded(""), "/t", " x ", true),
        Ok(GitWorktreeAddResult { path: "/t".to_string(), branch: "x".to_string() })
    );
    assert_eq!(
        add_worktree_status(failed("fatal: '/t' already exists"), "/t", "x", true),
        Err("目标目录已存在，无法创建 worktree".to_string())
    );
}

#[test]
fn worktrees_are_removed() {
    let listed = strings(&["/w/a", "/w/b"]);
    assert_eq!(
        remove_worktree(false, "/r", "/w/a", "/w/a", &listed, false),
        Err("不是 Git 仓库".to_string())
    );
    assert_eq!(
        remove_worktree(true, "/r", "  ", "", &listed, false),
        Err("worktree 路径不能为空".to_string())
    );
    assert_eq!(
        remove_worktree(true, "/r", "/r/", "/r", &listed, false),
        Err("不能删除主仓库目录".to_string())
    );
    assert_eq!(
        remove_worktree(true, "/r", "/w/c", "/w/c", &listed, false),
        Err("worktree 不存在或已移除".to_string())
    );
    assert_eq!(
        remove_worktree(true, "/r", " /w/a ", "/w/a", &listed, false),
        Ok(strings(&["worktree", "remove", "/w/a"]))
    );
    assert_eq!(
        remove_worktree(true, "/r", "/w/b", "/w/b", &listed, true),
        Ok(strings(&["worktree", "remove", "--force", "/w/b"]))
    );
    assert!(should_prune("fatal: '/w/a' is not a working tree"));
    assert!(should_prune("error: '/w/a' is missing"));
    assert!(should_prune("No such file or directory"));
    assert!(!should_prune("fatal: locked"));
    assert_eq!(remove_worktree_status(&succeeded(""), false, false), Ok(()));
    assert_eq!(
        remove_worktree_status(&failed("fatal: '/w/a' is not a working tree"), false, true),
        Ok(())
    );
    assert_eq!(
        remove_worktree_status(&failed("fatal: '/w/a' is not a working tree"), false, false),
        Err("worktree 不存在或已移除".to_string())
    );
    assert_eq!(
        remove_worktree_status(&failed("fatal: worktree is locked"), false, true),
        Err("worktree 已锁定，无法删除。可先执行 git worktree unlock 后重试".to_string())
    );
}
