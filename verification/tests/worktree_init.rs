use devhaven::models::{BranchListItem, WorktreeInitStep};
use devhaven::worktree_queue::{
    build_queue_message, choose_default_base_branch, dequeue_project_job, enqueue_project_job,
    is_terminal_step, resolve_create_start_point, resolve_request_base_branch, validate_branch,
    ProjectQueues,
};

#[test]
fn queue_should_follow_fifo_order() {
    let mut queues = ProjectQueues::new();
    let project_key = "repo";

    assert_eq!(enqueue_project_job(&mut queues, project_key, "job-1"), 0);
    assert_eq!(enqueue_project_job(&mut queues, project_key, "job-2"), 1);
    assert_eq!(enqueue_project_job(&mut queues, project_key, "job-3"), 2);

    assert_eq!(
        dequeue_project_job(&mut queues, project_key, "job-1"),
        Some("job-2".to_string())
    );
    assert_eq!(
        dequeue_project_job(&mut queues, project_key, "job-2"),
        Some("job-3".to_string())
    );
    assert_eq!(dequeue_project_job(&mut queues, project_key, "job-3"), None);
    assert!(!queues.contains_key(project_key));
}

#[test]
fn queue_cancelled_pending_job_should_not_block_following_jobs() {
    let mut queues = ProjectQueues::new();
    let project_key = "repo";

    enqueue_project_job(&mut queues, project_key, "job-1");
    enqueue_project_job(&mut queues, project_key, "job-2");
    enqueue_project_job(&mut queues, project_key, "job-3");

    assert_eq!(
        dequeue_project_job(&mut queues, project_key, "job-2"),
        Some("job-1".to_string())
    );
    assert_eq!(
        dequeue_project_job(&mut queues, project_key, "job-1"),
        Some("job-3".to_string())
    );
}

#[test]
fn default_base_branch_should_prefer_develop_then_main_branch() {
    let branches = vec![
        BranchListItem {
            name: "main".to_string(),
            is_main: true,
        },
        BranchListItem {
            name: "develop".to_string(),
            is_main: false,
        },
    ];
    assert_eq!(
        choose_default_base_branch(&branches),
        Some("develop".to_string())
    );

    let fallback = vec![
        BranchListItem {
            name: "main".to_string(),
            is_main: true,
        },
        BranchListItem {
            name: "feature/x".to_string(),
            is_main: false,
        },
    ];
    assert_eq!(
        choose_default_base_branch(&fallback),
        Some("main".to_string())
    );
}

#[test]
fn queue_message_should_reflect_waiting_count() {
    assert_eq!(build_queue_message(0), "排队中（即将开始）");
    assert_eq!(build_queue_message(2), "排队中（前方还有 2 个任务）");
}

#[test]
fn queue_message_counts_in_decimal() {
    assert_eq!(build_queue_message(1), "排队中（前方还有 1 个任务）");
    assert_eq!(build_queue_message(10), "排队中（前方还有 10 个任务）");
    assert_eq!(build_queue_message(12345), "排队中（前方还有 12345 个任务）");
}

#[test]
fn queues_of_projects_are_independent() {
    let mut queues = ProjectQueues::new();
    assert_eq!(enqueue_project_job(&mut queues, "a", "j1"), 0);
    assert_eq!(enqueue_project_job(&mut queues, "b", "j2"), 0);
    assert_eq!(enqueue_project_job(&mut queues, "a", "j3"), 1);
    assert_eq!(queues.queue_len("a"), 2);
    assert_eq!(queues.queue_len("b"), 1);
    assert_eq!(queues.queue_len("c"), 0);
    assert_eq!(dequeue_project_job(&mut queues, "b", "j2"), None);
    assert!(!queues.contains_key("b"));
    assert!(queues.contains_key("a"));
    assert_eq!(dequeue_project_job(&mut queues, "c", "j1"), None);
    assert_eq!(dequeue_project_job(&mut queues, "a", "unknown"), Some("j1".to_string()));
    assert_eq!(queues.queue_len("a"), 2);
}

#[test]
fn default_base_branch_falls_back_to_the_first() {
    let item = |name: &str, is_main: bool| BranchListItem { name: name.to_string(), is_main };
    assert_eq!(choose_default_base_branch(&Vec::new()), None);
    assert_eq!(
        choose_default_base_branch(&vec![item("topic", false), item("other", false)]),
        Some("topic".to_string())
    );
    assert_eq!(
        choose_default_base_branch(&vec![item("topic", false), item("trunk", true)]),
        Some("trunk".to_string())
    );
}

#[test]
fn terminal_steps() {
    assert!(is_terminal_step(&WorktreeInitStep::Ready));
    assert!(is_terminal_step(&WorktreeInitStep::Failed));
    assert!(is_terminal_step(&WorktreeInitStep::Cancelled));
    assert!(!is_terminal_step(&WorktreeInitStep::Pending));
    assert!(!is_terminal_step(&WorktreeInitStep::Syncing));
}

#[test]
fn branches_are_validated() {
    let branches = vec![BranchListItem { name: "main".to_string(), is_main: true }];
    assert_eq!(validate_branch(&branches, "new", true), Ok(()));
    assert_eq!(
        validate_branch(&branches, "main", true),
        Err("分支已存在，请改用“已有分支”模式或更换分支名".to_string())
    );
    assert_eq!(validate_branch(&branches, "main", false), Ok(()));
    assert_eq!(
        validate_branch(&branches, "new", false),
        Err("分支不存在或不可用，请检查分支名称".to_string())
    );
}

#[test]
fn base_branches_are_resolved() {
    let branches = vec![BranchListItem { name: "main".to_string(), is_main: true }];
    assert_eq!(resolve_request_base_branch(Some(" dev "), &branches), Ok("dev".to_string()));
    assert_eq!(resolve_request_base_branch(Some("  "), &branches), Ok("main".to_string()));
    assert_eq!(resolve_request_base_branch(None, &branches), Ok("main".to_string()));
    assert_eq!(
        resolve_request_base_branch(None, &Vec::new()),
        Err("基线分支不可用：无法确定默认基线分支，请手动选择".to_string())
    );
    assert_eq!(resolve_create_start_point(false, Some("main")), Ok(None));
    assert_eq!(resolve_create_start_point(true, Some("main")), Ok(Some("main".to_string())));
    assert_eq!(
        resolve_create_start_point(true, None),
        Err("基线分支不可用：未提供基线分支".to_string())
    );
}
