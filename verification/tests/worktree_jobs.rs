use devhaven::invocation::{
    get_user_home, get_user_shell, queue_closed, spawn_failure, write_failure, SpawnStage,
};
use devhaven::manager::TerminalManager;
use devhaven::models::{
    BranchListItem, WorktreeInitRetryRequest, WorktreeInitStartRequest, WorktreeInitStatusQuery,
    WorktreeInitStep,
};
use devhaven::worktree_init::{
    cancel_notice, cancel_result, cancelled_outcome, finish_job, next_running_step,
    rollback_created_worktree, running_message, stops_before, JobRunOutcome, WorktreeInitState,
};

fn request(project_path: &str, branch: &str, create_branch: bool) -> WorktreeInitStartRequest {
    WorktreeInitStartRequest {
        project_id: "p1".to_string(),
        project_path: project_path.to_string(),
        branch: branch.to_string(),
        create_branch,
        base_branch: None,
        target_path: None,
    }
}

fn branches() -> Vec<BranchListItem> {
    vec![
        BranchListItem { name: "main".to_string(), is_main: true },
        BranchListItem { name: "topic".to_string(), is_main: false },
    ]
}

#[test]
fn requests_are_checked_in_order() {
    let mut state = WorktreeInitState::new();
    let start = |state: &mut WorktreeInitState, request, is_repo, home| {
        state.start_job(request, is_repo, &branches(), Some("repo"), home, "job".to_string(), 1)
    };
    assert_eq!(
        start(&mut state, request("  ", "", true), false, None),
        Err("项目路径不能为空".to_string())
    );
    assert_eq!(
        start(&mut state, request("/r", "", true), false, None),
        Err("不是 Git 仓库".to_string())
    );
    assert_eq!(
        start(&mut state, request("/r", " ", true), true, None),
        Err("分支名不能为空".to_string())
    );
    assert_eq!(
        start(&mut state, request("/r", "x", false), true, None),
        Err("无法解析用户主目录".to_string())
    );
    let none: Vec<BranchListItem> = Vec::new();
    assert_eq!(
        state.start_job(request("/r", "x", true), true, &none, Some("repo"), Some("/h"), "job".to_string(), 1),
        Err("基线分支不可用：无法确定默认基线分支，请手动选择".to_string())
    );
    assert!(state.snapshot_job("job").is_none());
    assert!(state.query_status(WorktreeInitStatusQuery { project_id: None, project_path: None }).is_empty());
}

#[test]
fn jobs_of_one_project_run_one_after_the_other() {
    let mut state = WorktreeInitState::new();
    let (first, starts) = state
        .start_job(request(" /r/ ", " feature/x ", true), true, &branches(), Some("repo"), Some("/h"), "job-1".to_string(), 10)
        .expect("first job");
    assert!(starts);
    assert_eq!(first.job_id, "job-1");
    assert_eq!(first.project_path, "/r/");
    assert_eq!(first.branch, "feature/x");
    assert_eq!(first.base_branch, Some("main".to_string()));
    assert_eq!(first.worktree_path, "/h/.devhaven/worktrees/repo/feature/x");
    assert_eq!(first.step, WorktreeInitStep::Pending);
    assert_eq!(first.message, "排队中（即将开始）");

    let mut second_request = request("/r", "topic", false);
    second_request.target_path = Some(" /w/topic ".to_string());
    let (second, starts) = state
        .start_job(second_request, true, &branches(), Some("repo"), Some("/h"), "job-2".to_string(), 20)
        .expect("second job");
    assert!(!starts);
    assert_eq!(second.base_branch, None);
    assert_eq!(second.worktree_path, "/w/topic");
    assert_eq!(second.message, "排队中（前方还有 1 个任务）");

    let (_, starts) = state
        .start_job(request("/other", "x", false), true, &branches(), Some("other"), Some("/h"), "job-3".to_string(), 30)
        .expect("other project");
    assert!(starts);

    let job = state.snapshot_job("job-1").expect("job");
    assert!(job.is_running);
    assert_eq!(job.project_key, "/r");
    assert_eq!(job.updated_at, 10);
    assert!(!state.snapshot_job("job-2").expect("job").is_running);

    assert_eq!(state.finalize_job("job-1", 40), Some("job-2".to_string()));
    assert!(!state.snapshot_job("job-1").expect("job").is_running);
    let next = state.snapshot_job("job-2").expect("job");
    assert!(next.is_running);
    assert_eq!(next.updated_at, 40);
    assert_eq!(state.finalize_job("job-2", 50), None);
    assert_eq!(state.finalize_job("missing", 50), None);
}

#[test]
fn progress_is_recorded_and_reported() {
    let mut state = WorktreeInitState::new();
    state
        .start_job(request("/r", "x", false), true, &branches(), Some("repo"), Some("/h"), "job-1".to_string(), 10)
        .expect("job");
    let payload = state
        .emit_progress(
            "job-1",
            WorktreeInitStep::Validating,
            running_message(WorktreeInitStep::Validating, false),
            None,
            11,
        )
        .expect("payload");
    assert_eq!(payload.job_id, "job-1");
    assert_eq!(payload.step, WorktreeInitStep::Validating);
    assert_eq!(payload.message, "执行中：校验仓库状态...");
    assert_eq!(payload.worktree_path, "/h/.devhaven/worktrees/repo/x");
    let job = state.snapshot_job("job-1").expect("job");
    assert_eq!(job.step, WorktreeInitStep::Validating);
    assert_eq!(job.updated_at, 11);
    assert_eq!(
        state.emit_progress("missing", WorktreeInitStep::Ready, String::new(), None, 12),
        None
    );
    let (step, message, error) = finish_job(JobRunOutcome::Failed("boom".to_string()));
    let failed = state.emit_progress("job-1", step, message, error, 13).expect("payload");
    assert_eq!(failed.step, WorktreeInitStep::Failed);
    assert_eq!(failed.message, "创建失败");
    assert_eq!(failed.error, Some("boom".to_string()));
}

#[test]
fn jobs_are_cancelled_and_retried() {
    let mut state = WorktreeInitState::new();
    assert_eq!(state.cancel("missing", 1), Err("创建任务不存在".to_string()));
    state
        .start_job(request("/r", "x", false), true, &branches(), Some("repo"), Some("/h"), "job-1".to_string(), 10)
        .expect("job");
    state
        .start_job(request("/r", "y", true), true, &branches(), Some("repo"), Some("/h"), "job-2".to_string(), 11)
        .expect("job");
    assert!(!state.is_cancel_requested("job-1"));
    assert!(!state.is_cancel_requested("missing"));
    assert_eq!(state.cancel("job-1", 12), Ok(true));
    assert_eq!(state.cancel("job-2", 13), Ok(false));
    assert!(state.is_cancel_requested("job-1"));
    let notice = cancel_notice(&state.snapshot_job("job-1").expect("job"));
    assert_eq!(notice.message, "已收到取消请求，等待当前步骤结束");
    assert_eq!(notice.step, WorktreeInitStep::Pending);
    let answer = cancel_result("job-1");
    assert!(answer.cancelled);
    assert_eq!(answer.job_id, "job-1");

    let retry = |state: &WorktreeInitState, id: &str| {
        state.retry(&WorktreeInitRetryRequest { job_id: id.to_string() })
    };
    assert_eq!(retry(&state, "missing"), Err("创建任务不存在".to_string()));
    assert_eq!(retry(&state, "job-1"), Err("创建任务仍在进行中，暂不可重试".to_string()));
    let again = retry(&state, "job-2").expect("request");
    assert_eq!(again.branch, "y");
    assert!(again.create_branch);
    assert_eq!(again.base_branch, Some("main".to_string()));
    assert_eq!(again.target_path, Some("/h/.devhaven/worktrees/repo/y".to_string()));

    let (step, _, _) = finish_job(cancelled_outcome(true));
    state.emit_progress("job-2", step, "已取消（已从队列移除）".to_string(), None, 14);
    assert_eq!(state.finalize_job("job-1", 15), None);
    state.set_running("job-1", true, 16);
    assert!(state.snapshot_job("job-1").expect("job").is_running);
}

#[test]
fn status_answers_by_project_newest_first() {
    let mut state = WorktreeInitState::new();
    let mut other = request("/other/", "x", false);
    other.project_id = "p2".to_string();
    state
        .start_job(request("/r", "a", false), true, &branches(), Some("repo"), Some("/h"), "j1".to_string(), 10)
        .expect("job");
    state
        .start_job(other, true, &branches(), Some("other"), Some("/h"), "j2".to_string(), 30)
        .expect("job");
    state
        .start_job(request("/r", "b", false), true, &branches(), Some("repo"), Some("/h"), "j3".to_string(), 20)
        .expect("job");
    state
        .start_job(request("/r", "c", false), true, &branches(), Some("repo"), Some("/h"), "j4".to_string(), 20)
        .expect("job");
    let ids = |state: &WorktreeInitState, project_id: Option<&str>, project_path: Option<&str>| {
        state
            .query_status(WorktreeInitStatusQuery {
                project_id: project_id.map(|s| s.to_string()),
                project_path: project_path.map(|s| s.to_string()),
            })
            .into_iter()
            .map(|status| status.job_id)
            .collect::<Vec<String>>()
    };
    assert_eq!(ids(&state, None, None), vec!["j2", "j3", "j4", "j1"]);
    assert_eq!(ids(&state, Some(" p1 "), None), vec!["j3", "j4", "j1"]);
    assert_eq!(ids(&state, None, Some(" /other ")), vec!["j2"]);
    assert_eq!(ids(&state, Some("p1"), Some("/other")), Vec::<String>::new());
    let all = state.query_status(WorktreeInitStatusQuery { project_id: None, project_path: None });
    assert_eq!(all[3].updated_at, 10);
    assert!(all[3].is_running);
    assert_eq!(all[1].message, "排队中（前方还有 1 个任务）");
}

#[test]
fn a_started_job_gets_a_fresh_identifier() {
    let mut state = WorktreeInitState::new();
    let (first, starts) = state
        .start(request("/r", "a", false), true, &branches(), Some("repo"), Some("/h"))
        .expect("job");
    let (second, waits) = state
        .start(request("/r", "b", false), true, &branches(), Some("repo"), Some("/h"))
        .expect("job");
    assert!(starts && !waits);
    assert_ne!(first.job_id, second.job_id);
    assert_eq!(first.job_id.len(), 36);
    assert!(state.snapshot_job(&first.job_id).expect("job").updated_at > 1_600_000_000_000);
    assert_eq!(
        state.start(request("", "a", false), true, &branches(), None, None),
        Err("项目路径不能为空".to_string())
    );
}

#[test]
fn the_flow_of_a_job() {
    assert_eq!(next_running_step(WorktreeInitStep::Pending), Some(WorktreeInitStep::Validating));
    assert_eq!(next_running_step(WorktreeInitStep::Syncing), None);
    assert_eq!(next_running_step(WorktreeInitStep::Failed), None);
    assert_eq!(
        running_message(WorktreeInitStep::CheckingBranch, true),
        "执行中：校验分支与基线可用性..."
    );
    assert_eq!(running_message(WorktreeInitStep::CheckingBranch, false), "执行中：校验分支可用性...");
    assert_eq!(running_message(WorktreeInitStep::Syncing, false), "执行中：同步工作区状态...");
    assert_eq!(running_message(WorktreeInitStep::Ready, false), "");
    assert!(stops_before(WorktreeInitStep::CheckingBranch, true));
    assert!(stops_before(WorktreeInitStep::CreatingWorktree, true));
    assert!(!stops_before(WorktreeInitStep::PreparingEnvironment, true));
    assert!(!stops_before(WorktreeInitStep::CheckingBranch, false));
    assert_eq!(
        finish_job(JobRunOutcome::Ready(None)),
        (WorktreeInitStep::Ready, "创建完成".to_string(), None)
    );
    assert_eq!(
        finish_job(JobRunOutcome::Ready(Some("warn".to_string()))),
        (
            WorktreeInitStep::Ready,
            "创建完成（环境初始化存在告警）".to_string(),
            Some("warn".to_string())
        )
    );
    assert_eq!(
        finish_job(cancelled_outcome(false)),
        (WorktreeInitStep::Cancelled, "已取消".to_string(), None)
    );
    assert_eq!(
        rollback_created_worktree(Ok(()), "/w"),
        JobRunOutcome::Cancelled("创建任务已取消，已回滚新建 worktree".to_string())
    );
    assert_eq!(
        rollback_created_worktree(Err("locked".to_string()), "/w"),
        JobRunOutcome::Failed("创建任务已取消，但回滚失败：locked。请手动清理目录 /w".to_string())
    );
}

#[test]
fn the_user_s_shell_and_home() {
    let some = |s: &str| Some(s.to_string());
    assert_eq!(get_user_shell(some("/bin/fish"), true, some("/bin/zsh"), true, true, true), "/bin/fish");
    assert_eq!(get_user_shell(some("/bin/fish"), false, some("/bin/ksh"), true, true, true), "/bin/ksh");
    assert_eq!(get_user_shell(some(""), true, some("/bin/ksh"), false, true, true), "/bin/zsh");
    assert_eq!(get_user_shell(None, false, None, false, false, true), "/bin/bash");
    assert_eq!(get_user_shell(None, false, None, false, false, false), "/bin/sh");
    assert_eq!(get_user_home(some("/Users/me"), some("/var/root")), some("/Users/me"));
    assert_eq!(get_user_home(some(""), some("/var/root")), some("/var/root"));
    assert_eq!(get_user_home(None, None), None);
}

#[test]
fn channel_failures_are_worded() {
    assert_eq!(write_failure("broken pipe"), "控制命令写入失败: broken pipe");
    assert_eq!(queue_closed(), "控制命令队列已关闭");
    assert_eq!(spawn_failure(SpawnStage::OpenPty, "x"), "创建 tmux 控制终端失败: x");
    assert_eq!(spawn_failure(SpawnStage::Spawn, "x"), "启动 tmux 控制模式失败: x");
    assert_eq!(spawn_failure(SpawnStage::Reader, "x"), "读取 tmux 输出失败: x");
    assert_eq!(spawn_failure(SpawnStage::Writer, "x"), "获取 tmux 写入器失败: x");
    let info = TerminalManager::new().create_session_now("work".to_string(), "p1", "/tmp/p");
    assert_eq!(info.id, "work");
    assert!(info.created_at > 1_600_000_000_000);
}
