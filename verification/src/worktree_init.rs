//! Worktree jobs: their records, their place in the queue of their project,
//! and what they tell their user while they run.

use crate::git_plan::{resolve_worktree_target_path, worktree_target};
use crate::git_worktree::{normalize_path_for_compare, path_key};
use crate::models::{
    BranchListItem, WorktreeInitCancelResult, WorktreeInitJobStatus, WorktreeInitProgressPayload,
    WorktreeInitRetryRequest, WorktreeInitStartRequest, WorktreeInitStartResult,
    WorktreeInitStatusQuery, WorktreeInitStep,
};
use crate::sorting::{desc_order, order_descending, places};
use crate::text::{chars_of, push_chars, str_eq, string_of, text_of, trim, trim_slice};
use crate::worktree_queue::{
    branch_views, build_queue_message, default_base, dequeue_project_job, dequeued,
    enqueue_project_job, enqueued, is_terminal_step, jobs_of, next_after, no_default_base,
    queue_message, resolve_request_base_branch, ProjectQueues,
};
use vstd::prelude::*;

verus! {

pub const WORKTREE_INIT_PROGRESS_EVENT: &'static str = "worktree-init-progress";

pub open spec fn opt_text(o: Option<String>) -> Option<Seq<char>> {
    match o {
        Some(s) => Some(s@),
        None => None,
    }
}

pub open spec fn opt_str(o: Option<&str>) -> Option<Seq<char>> {
    match o {
        Some(s) => Some(s@),
        None => None,
    }
}

/// `Uuid::new_v4` and its hyphenated form: a fresh random identifier, as
/// text. Nothing is claimed of it.
#[verifier::external_body]
pub(crate) fn new_job_id() -> (id: String) {
    uuid::Uuid::new_v4().to_string()
}

/// `chrono::Utc::now` and `DateTime::timestamp_millis`: the time of the
/// call in milliseconds since the epoch. Nothing is claimed of it.
#[verifier::external_body]
pub(crate) fn now_millis() -> (ms: i64) {
    chrono::Utc::now().timestamp_millis()
}

/// One job: a worktree that is being created for a branch of a project.
#[derive(Debug, Clone, PartialEq, Eq)]
pub struct WorktreeInitJob {
    pub job_id: String,
    pub project_id: String,
    pub project_path: String,
    pub project_key: String,
    pub worktree_path: String,
    pub branch: String,
    pub base_branch: Option<String>,
    pub create_branch: bool,
    pub step: WorktreeInitStep,
    pub message: String,
    pub error: Option<String>,
    pub updated_at: i64,
    pub is_running: bool,
    pub cancel_requested: bool,
}

pub struct JobView {
    pub job_id: Seq<char>,
    pub project_id: Seq<char>,
    pub project_path: Seq<char>,
    pub project_key: Seq<char>,
    pub worktree_path: Seq<char>,
    pub branch: Seq<char>,
    pub base_branch: Option<Seq<char>>,
    pub create_branch: bool,
    pub step: WorktreeInitStep,
    pub message: Seq<char>,
    pub error: Option<Seq<char>>,
    pub updated_at: i64,
    pub is_running: bool,
    pub cancel_requested: bool,
}

impl View for WorktreeInitJob {
    type V = JobView;

    open spec fn view(&self) -> JobView {
        JobView {
            job_id: self.job_id@,
            project_id: self.project_id@,
            project_path: self.project_path@,
            project_key: self.project_key@,
            worktree_path: self.worktree_path@,
            branch: self.branch@,
            base_branch: opt_text(self.base_branch),
            create_branch: self.create_branch,
            step: self.step,
            message: self.message@,
            error: opt_text(self.error),
            updated_at: self.updated_at,
            is_running: self.is_running,
            cancel_requested: self.cancel_requested,
        }
    }
}

pub open spec fn job_views(v: Seq<WorktreeInitJob>) -> Seq<JobView> {
    Seq::new(v.len(), |i: int| v[i]@)
}

/// How a job ended.
#[derive(Debug, Clone, PartialEq, Eq)]
pub enum JobRunOutcome {
    /// The worktree is ready, with a warning where its environment could
    /// not be prepared in full.
    Ready(Option<String>),
    Failed(String),
    Cancelled(String),
}

/// The jobs there are, oldest first, and the queues of their projects.
pub struct WorktreeInitState {
    jobs: Vec<WorktreeInitJob>,
    project_queues: ProjectQueues,
}

pub struct StateView {
    pub jobs: Seq<JobView>,
    pub queues: Seq<(Seq<char>, Seq<Seq<char>>)>,
}

impl View for WorktreeInitState {
    type V = StateView;

    closed spec fn view(&self) -> StateView {
        StateView { jobs: job_views(self.jobs@), queues: self.project_queues@ }
    }
}

/// Index of the first job `id` at or after `i`; the length where there is
/// none.
pub open spec fn seek_job(jobs: Seq<JobView>, id: Seq<char>, i: int) -> int
    decreases jobs.len() - i,
{
    if 0 <= i < jobs.len() && jobs[i].job_id != id {
        seek_job(jobs, id, i + 1)
    } else {
        i
    }
}

pub open spec fn job_of(jobs: Seq<JobView>, id: Seq<char>) -> Option<JobView> {
    let i = seek_job(jobs, id, 0);
    if 0 <= i < jobs.len() {
        Some(jobs[i])
    } else {
        None
    }
}

fn copy_opt(o: &Option<String>) -> (r: Option<String>)
    ensures
        opt_text(r) == opt_text(*o),
{
    match o {
        Some(s) => Some(text_of(s.as_str())),
        None => None,
    }
}

fn copy_job(job: &WorktreeInitJob) -> (r: WorktreeInitJob)
    ensures
        r@ == job@,
{
    WorktreeInitJob {
        job_id: text_of(job.job_id.as_str()),
        project_id: text_of(job.project_id.as_str()),
        project_path: text_of(job.project_path.as_str()),
        project_key: text_of(job.project_key.as_str()),
        worktree_path: text_of(job.worktree_path.as_str()),
        branch: text_of(job.branch.as_str()),
        base_branch: copy_opt(&job.base_branch),
        create_branch: job.create_branch,
        step: job.step,
        message: text_of(job.message.as_str()),
        error: copy_opt(&job.error),
        updated_at: job.updated_at,
        is_running: job.is_running,
        cancel_requested: job.cancel_requested,
    }
}

pub struct ProgressView {
    pub job_id: Seq<char>,
    pub project_id: Seq<char>,
    pub project_path: Seq<char>,
    pub worktree_path: Seq<char>,
    pub branch: Seq<char>,
    pub base_branch: Option<Seq<char>>,
    pub step: WorktreeInitStep,
    pub message: Seq<char>,
    pub error: Option<Seq<char>>,
}

impl View for WorktreeInitProgressPayload {
    type V = ProgressView;

    open spec fn view(&self) -> ProgressView {
        ProgressView {
            job_id: self.job_id@,
            project_id: self.project_id@,
            project_path: self.project_path@,
            worktree_path: self.worktree_path@,
            branch: self.branch@,
            base_branch: opt_text(self.base_branch),
            step: self.step,
            message: self.message@,
            error: opt_text(self.error),
        }
    }
}

/// What a job tells its user at a step.
pub open spec fn progress_of(
    job: JobView,
    step: WorktreeInitStep,
    message: Seq<char>,
    error: Option<Seq<char>>,
) -> ProgressView {
    ProgressView {
        job_id: job.job_id,
        project_id: job.project_id,
        project_path: job.project_path,
        worktree_path: job.worktree_path,
        branch: job.branch,
        base_branch: job.base_branch,
        step,
        message,
        error,
    }
}

fn progress_payload(
    job: &WorktreeInitJob,
    step: WorktreeInitStep,
    message: String,
    error: Option<String>,
) -> (r: WorktreeInitProgressPayload)
    ensures
        r@ == progress_of(job@, step, message@, opt_text(error)),
{
    WorktreeInitProgressPayload {
        job_id: text_of(job.job_id.as_str()),
        project_id: text_of(job.project_id.as_str()),
        project_path: text_of(job.project_path.as_str()),
        worktree_path: text_of(job.worktree_path.as_str()),
        branch: text_of(job.branch.as_str()),
        base_branch: copy_opt(&job.base_branch),
        step,
        message,
        error,
    }
}

pub open spec fn status_view(s: WorktreeInitJobStatus) -> JobView {
    JobView {
        job_id: s.job_id@,
        project_id: s.project_id@,
        project_path: s.project_path@,
        project_key: seq![],
        worktree_path: s.worktree_path@,
        branch: s.branch@,
        base_branch: opt_text(s.base_branch),
        create_branch: s.create_branch,
        step: s.step,
        message: s.message@,
        error: opt_text(s.error),
        updated_at: s.updated_at,
        is_running: s.is_running,
        cancel_requested: s.cancel_requested,
    }
}

/// A job as a status shows it: all of it but the key of its project.
pub open spec fn shown(job: JobView) -> JobView {
    JobView { project_key: seq![], ..job }
}

/// Whether a job answers a query: a query names a project by its
/// identifier, trimmed, by its path, or by both.
pub open spec fn answers(
    job: JobView,
    project_id: Option<Seq<char>>,
    project_path: Option<Seq<char>>,
) -> bool {
    (project_id is Some ==> job.project_id == trim(project_id->0)) && (project_path is Some
        ==> job.project_key == path_key(project_path->0))
}

/// The jobs that answer a query, in the order in which they came.
pub open spec fn answering(
    jobs: Seq<JobView>,
    project_id: Option<Seq<char>>,
    project_path: Option<Seq<char>>,
) -> Seq<JobView>
    decreases jobs.len(),
{
    if jobs.len() == 0 {
        seq![]
    } else if answers(jobs.last(), project_id, project_path) {
        answering(jobs.drop_last(), project_id, project_path).push(jobs.last())
    } else {
        answering(jobs.drop_last(), project_id, project_path)
    }
}

pub open spec fn update_times(jobs: Seq<JobView>) -> Seq<i64> {
    Seq::new(jobs.len(), |i: int| jobs[i].updated_at)
}

pub open spec fn status_views(v: Seq<WorktreeInitJobStatus>) -> Seq<JobView> {
    Seq::new(v.len(), |i: int| status_view(v[i]))
}

fn status_of(job: &WorktreeInitJob) -> (r: WorktreeInitJobStatus)
    ensures
        status_view(r) == shown(job@),
{
    WorktreeInitJobStatus {
        job_id: text_of(job.job_id.as_str()),
        project_id: text_of(job.project_id.as_str()),
        project_path: text_of(job.project_path.as_str()),
        worktree_path: text_of(job.worktree_path.as_str()),
        branch: text_of(job.branch.as_str()),
        base_branch: copy_opt(&job.base_branch),
        create_branch: job.create_branch,
        step: job.step,
        message: text_of(job.message.as_str()),
        error: copy_opt(&job.error),
        updated_at: job.updated_at,
        is_running: job.is_running,
        cancel_requested: job.cancel_requested,
    }
}

pub open spec fn no_such_job() -> Seq<char> {
    "创建任务不存在"@
}

pub open spec fn still_running() -> Seq<char> {
    "创建任务仍在进行中，暂不可重试"@
}

pub struct RequestView {
    pub project_id: Seq<char>,
    pub project_path: Seq<char>,
    pub branch: Seq<char>,
    pub create_branch: bool,
    pub base_branch: Option<Seq<char>>,
    pub target_path: Option<Seq<char>>,
}

impl View for WorktreeInitStartRequest {
    type V = RequestView;

    open spec fn view(&self) -> RequestView {
        RequestView {
            project_id: self.project_id@,
            project_path: self.project_path@,
            branch: self.branch@,
            create_branch: self.create_branch,
            base_branch: opt_text(self.base_branch),
            target_path: opt_text(self.target_path),
        }
    }
}

pub open spec fn request_result(r: Result<WorktreeInitStartRequest, String>) -> Result<
    RequestView,
    Seq<char>,
> {
    match r {
        Ok(q) => Ok(q@),
        Err(e) => Err(e@),
    }
}

/// The request that starts a job again: the same project and branch, and
/// the worktree where it was to be.
pub open spec fn retried(job: JobView) -> RequestView {
    RequestView {
        project_id: job.project_id,
        project_path: job.project_path,
        branch: job.branch,
        create_branch: job.create_branch,
        base_branch: job.base_branch,
        target_path: Some(job.worktree_path),
    }
}

/// Whether a step is one at which a job has ended.
pub open spec fn has_ended(step: WorktreeInitStep) -> bool {
    step == WorktreeInitStep::Ready || step == WorktreeInitStep::Failed || step
        == WorktreeInitStep::Cancelled
}

/// The jobs and queues after a job ended, and the job that is to be started
/// next. The job that ended no longer runs and has left the queue of its
/// project; the job that is first in that queue then is started, unless it
/// runs already or has ended itself.
pub open spec fn finalized(s: StateView, job_id: Seq<char>, now: i64) -> (
    StateView,
    Option<Seq<char>>,
) {
    match job_of(s.jobs, job_id) {
        None => (s, None),
        Some(job) => {
            let stopped = s.jobs.update(
                seek_job(s.jobs, job_id, 0),
                JobView { is_running: false, ..job },
            );
            let queues = dequeued(s.queues, job.project_key, job_id);
            let idle = (StateView { jobs: stopped, queues }, None::<Seq<char>>);
            match next_after(s.queues, job.project_key, job_id) {
                None => idle,
                Some(next_id) => match job_of(stopped, next_id) {
                    None => idle,
                    Some(next_job) => if next_job.is_running || has_ended(next_job.step) {
                        idle
                    } else {
                        (
                            StateView {
                                jobs: stopped.update(
                                    seek_job(stopped, next_id, 0),
                                    JobView { is_running: true, updated_at: now, ..next_job },
                                ),
                                queues,
                            },
                            Some(next_id),
                        )
                    },
                },
            }
        },
    }
}

impl WorktreeInitState {
    pub fn new() -> (s: Self)
        ensures
            s@.jobs.len() == 0,
            s@.queues.len() == 0,
    {
        WorktreeInitState { jobs: Vec::new(), project_queues: ProjectQueues::new() }
    }

    fn find(&self, job_id: &str) -> (r: usize)
        ensures
            r == seek_job(self@.jobs, job_id@, 0),
            r <= self.jobs.len(),
    {
        let mut i: usize = 0;
        while i < self.jobs.len() && !str_eq(self.jobs[i].job_id.as_str(), job_id)
            invariant
                i <= self.jobs.len(),
                seek_job(self@.jobs, job_id@, 0) == seek_job(self@.jobs, job_id@, i as int),
            decreases self.jobs.len() - i,
        {
            i += 1;
        }
        i
    }

    /// A copy of a job as it stands.
    pub fn snapshot_job(&self, job_id: &str) -> (r: Option<WorktreeInitJob>)
        ensures
            match r {
                Some(job) => job_of(self@.jobs, job_id@) == Some(job@),
                None => job_of(self@.jobs, job_id@) is None,
            },
    {
        let i = self.find(job_id);
        if i < self.jobs.len() {
            Some(copy_job(&self.jobs[i]))
        } else {
            None
        }
    }

    /// Whether a job has been asked to stop; a job that is not there has
    /// not.
    pub fn is_cancel_requested(&self, job_id: &str) -> (r: bool)
        ensures
            r == (job_of(self@.jobs, job_id@) is Some && job_of(
                self@.jobs,
                job_id@,
            )->0.cancel_requested),
    {
        let i = self.find(job_id);
        i < self.jobs.len() && self.jobs[i].cancel_requested
    }

    /// The jobs that answer a query, the one that changed last first.
    pub fn query_status(&self, query: WorktreeInitStatusQuery) -> (r: Vec<WorktreeInitJobStatus>)
        ensures
            ({
                let found = answering(
                    self@.jobs,
                    opt_text(query.project_id),
                    opt_text(query.project_path),
                );
                let order = desc_order(update_times(found), found.len());
                &&& r.len() == found.len()
                &&& forall|i: int|
                    0 <= i < r.len() ==> (#[trigger] status_views(r@)[i]) == shown(found[order[i]])
            }),
    {
        let project_id = match &query.project_id {
            Some(id) => {
                let chars = chars_of(id.as_str());
                Some(string_of(trim_slice(chars.as_slice())))
            },
            None => None,
        };
        let project_key = match &query.project_path {
            Some(path) => Some(normalize_path_for_compare(path.as_str())),
            None => None,
        };
        let ghost want_id = opt_text(query.project_id);
        let ghost want_path = opt_text(query.project_path);
        let mut found: Vec<usize> = Vec::new();
        let mut times: Vec<i64> = Vec::new();
        let ghost mut found_views: Seq<JobView> = seq![];
        let mut i: usize = 0;
        while i < self.jobs.len()
            invariant
                i <= self.jobs.len(),
                found.len() == times.len(),
                found_views.len() == found.len(),
                found_views == answering(self@.jobs.subrange(0, i as int), want_id, want_path),
                times@ == update_times(found_views),
                forall|k: int|
                    0 <= k < found.len() ==> (#[trigger] found@[k]) < self.jobs.len()
                        && found_views[k] == self.jobs@[found@[k] as int]@,
                match project_id {
                    Some(id) => want_id is Some && id@ == trim(want_id->0),
                    None => want_id is None,
                },
                match project_key {
                    Some(key) => want_path is Some && key@ == path_key(want_path->0),
                    None => want_path is None,
                },
            decreases self.jobs.len() - i,
        {
            let job = &self.jobs[i];
            let ghost after = self@.jobs.subrange(0, i + 1);
            assert(after.drop_last() =~= self@.jobs.subrange(0, i as int));
            assert(after.last() == job@);
            let id_matches = match &project_id {
                Some(id) => str_eq(job.project_id.as_str(), id.as_str()),
                None => true,
            };
            let key_matches = match &project_key {
                Some(key) => str_eq(job.project_key.as_str(), key.as_str()),
                None => true,
            };
            if id_matches && key_matches {
                found.push(i);
                times.push(job.updated_at);
                proof {
                    found_views = found_views.push(job@);
                }
                assert(times@ =~= update_times(found_views));
            }
            i += 1;
        }
        assert(self@.jobs.subrange(0, self@.jobs.len() as int) =~= self@.jobs);
        let order = order_descending(&times);
        let mut out: Vec<WorktreeInitJobStatus> = Vec::new();
        let mut k: usize = 0;
        while k < order.len()
            invariant
                k <= order.len(),
                out.len() == k,
                order.len() == found.len(),
                found_views.len() == found.len(),
                places(order@) == desc_order(update_times(found_views), found_views.len()),
                forall|j: int| 0 <= j < order.len() ==> (#[trigger] order@[j]) < found.len(),
                forall|j: int|
                    0 <= j < found.len() ==> (#[trigger] found@[j]) < self.jobs.len()
                        && found_views[j] == self.jobs@[found@[j] as int]@,
                forall|j: int|
                    0 <= j < k ==> (#[trigger] status_views(out@)[j]) == shown(
                        found_views[order@[j] as int],
                    ),
            decreases order.len() - k,
        {
            let job = &self.jobs[found[order[k]]];
            let ghost before = status_views(out@);
            let status = status_of(job);
            out.push(status);
            assert(status_views(out@) =~= before.push(status_view(status)));
            k += 1;
        }
        assert forall|i: int| 0 <= i < out.len() implies (#[trigger] status_views(out@)[i])
            == shown(
            found_views[desc_order(update_times(found_views), found_views.len())[i]],
        ) by {
            assert(places(order@)[i] == order@[i] as int);
        }
        out
    }

    /// The request that starts a job again. A job that still runs cannot
    /// be started again.
    pub fn retry(&self, request: &WorktreeInitRetryRequest) -> (r: Result<
        WorktreeInitStartRequest,
        String,
    >)
        ensures
            request_result(r) == (match job_of(self@.jobs, request.job_id@) {
                None => Err::<RequestView, Seq<char>>(no_such_job()),
                Some(job) => if job.is_running {
                    Err(still_running())
                } else {
                    Ok(retried(job))
                },
            }),
    {
        let i = self.find(request.job_id.as_str());
        if i >= self.jobs.len() {
            return Err(text_of("创建任务不存在"));
        }
        let job = &self.jobs[i];
        if job.is_running {
            return Err(text_of("创建任务仍在进行中，暂不可重试"));
        }
        Ok(
            WorktreeInitStartRequest {
                project_id: text_of(job.project_id.as_str()),
                project_path: text_of(job.project_path.as_str()),
                branch: text_of(job.branch.as_str()),
                create_branch: job.create_branch,
                base_branch: copy_opt(&job.base_branch),
                target_path: Some(text_of(job.worktree_path.as_str())),
            },
        )
    }

    fn replace(&mut self, i: usize, job: WorktreeInitJob)
        requires
            i < old(self).jobs.len(),
        ensures
            final(self)@.jobs == old(self)@.jobs.update(i as int, job@),
            final(self)@.queues == old(self)@.queues,
    {
        self.jobs.remove(i);
        self.jobs.insert(i, job);
        assert(self@.jobs =~= old(self)@.jobs.update(i as int, job@));
    }

    /// Records the step that a job has reached and what it says there.
    /// What comes back is for the user; nothing does for a job that is not
    /// there.
    pub fn emit_progress(
        &mut self,
        job_id: &str,
        step: WorktreeInitStep,
        message: String,
        error: Option<String>,
        now: i64,
    ) -> (r: Option<WorktreeInitProgressPayload>)
        ensures
            final(self)@.queues == old(self)@.queues,
            match job_of(old(self)@.jobs, job_id@) {
                None => r is None && final(self)@ == old(self)@,
                Some(job) => r is Some && r->0@ == progress_of(
                    job,
                    step,
                    message@,
                    opt_text(error),
                ) && final(self)@.jobs == old(self)@.jobs.update(
                    seek_job(old(self)@.jobs, job_id@, 0),
                    JobView {
                        step,
                        message: message@,
                        error: opt_text(error),
                        updated_at: now,
                        ..job
                    },
                ),
            },
    {
        let i = self.find(job_id);
        if i >= self.jobs.len() {
            return None;
        }
        let mut job = copy_job(&self.jobs[i]);
        job.step = step;
        job.message = text_of(message.as_str());
        job.error = copy_opt(&error);
        job.updated_at = now;
        let payload = progress_payload(&job, step, message, error);
        self.replace(i, job);
        Some(payload)
    }

    /// Marks a job as running or not.
    pub fn set_running(&mut self, job_id: &str, running: bool, now: i64)
        ensures
            final(self)@.queues == old(self)@.queues,
            match job_of(old(self)@.jobs, job_id@) {
                None => final(self)@ == old(self)@,
                Some(job) => final(self)@.jobs == old(self)@.jobs.update(
                    seek_job(old(self)@.jobs, job_id@, 0),
                    JobView { is_running: running, updated_at: now, ..job },
                ),
            },
    {
        let i = self.find(job_id);
        if i >= self.jobs.len() {
            return ;
        }
        let mut job = copy_job(&self.jobs[i]);
        job.is_running = running;
        job.updated_at = now;
        self.replace(i, job);
    }

    /// Asks a job to stop. Says whether the job runs: a running job stops
    /// at its next step, a waiting one is to be taken from the queue by
    /// `finalize_job`.
    pub fn cancel(&mut self, job_id: &str, now: i64) -> (r: Result<bool, String>)
        ensures
            final(self)@.queues == old(self)@.queues,
            match job_of(old(self)@.jobs, job_id@) {
                None => r is Err && r->Err_0@ == no_such_job() && final(self)@ == old(self)@,
                Some(job) => r == Ok::<bool, String>(job.is_running) && final(self)@.jobs
                    == old(self)@.jobs.update(
                    seek_job(old(self)@.jobs, job_id@, 0),
                    JobView { cancel_requested: true, updated_at: now, ..job },
                ),
            },
    {
        let i = self.find(job_id);
        if i >= self.jobs.len() {
            return Err(text_of("创建任务不存在"));
        }
        let mut job = copy_job(&self.jobs[i]);
        job.cancel_requested = true;
        job.updated_at = now;
        let running = job.is_running;
        self.replace(i, job);
        Ok(running)
    }

    /// Ends a job: it no longer runs and leaves the queue of its project.
    /// Names the job that is to be started next, if there is one that waits
    /// and has not ended; that job is marked as running.
    pub fn finalize_job(&mut self, job_id: &str, now: i64) -> (next: Option<String>)
        ensures
            (final(self)@, opt_text(next)) == finalized(old(self)@, job_id@, now),
    {
        let i = self.find(job_id);
        if i >= self.jobs.len() {
            return None;
        }
        let project_key = text_of(self.jobs[i].project_key.as_str());
        let mut job = copy_job(&self.jobs[i]);
        job.is_running = false;
        self.replace(i, job);
        let candidate = dequeue_project_job(&mut self.project_queues, project_key.as_str(), job_id);
        let next_id = match candidate {
            Some(id) => id,
            None => {
                return None;
            },
        };
        let n = self.find(next_id.as_str());
        if n >= self.jobs.len() {
            return None;
        }
        if self.jobs[n].is_running || is_terminal_step(&self.jobs[n].step) {
            return None;
        }
        let mut next_job = copy_job(&self.jobs[n]);
        next_job.is_running = true;
        next_job.updated_at = now;
        self.replace(n, next_job);
        Some(next_id)
    }
}

pub open spec fn empty_project_path() -> Seq<char> {
    "项目路径不能为空"@
}

pub struct StartView {
    pub job_id: Seq<char>,
    pub project_id: Seq<char>,
    pub project_path: Seq<char>,
    pub worktree_path: Seq<char>,
    pub branch: Seq<char>,
    pub base_branch: Option<Seq<char>>,
    pub step: WorktreeInitStep,
    pub message: Seq<char>,
}

impl View for WorktreeInitStartResult {
    type V = StartView;

    open spec fn view(&self) -> StartView {
        StartView {
            job_id: self.job_id@,
            project_id: self.project_id@,
            project_path: self.project_path@,
            worktree_path: self.worktree_path@,
            branch: self.branch@,
            base_branch: opt_text(self.base_branch),
            step: self.step,
            message: self.message@,
        }
    }
}

/// The base branch of a request: that of a branch that is to be created,
/// as asked for or by default; none for a branch that exists.
pub open spec fn requested_base(request: RequestView, branches: Seq<(Seq<char>, bool)>) -> Result<
    Option<Seq<char>>,
    Seq<char>,
> {
    if !request.create_branch {
        Ok(None)
    } else if request.base_branch is Some && trim(request.base_branch->0).len() > 0 {
        Ok(Some(trim(request.base_branch->0)))
    } else {
        match default_base(branches) {
            Some(b) => Ok(Some(b)),
            None => Err(no_default_base()),
        }
    }
}

/// What a request is refused for, if it is refused: checked in this order
/// are the project's path, the repository, the branch, the base branch and
/// the place of the worktree.
pub open spec fn start_problem(
    request: RequestView,
    is_repo: bool,
    branches: Seq<(Seq<char>, bool)>,
    file_name: Option<Seq<char>>,
    home: Option<Seq<char>>,
) -> Option<Seq<char>> {
    if trim(request.project_path).len() == 0 {
        Some(empty_project_path())
    } else if !is_repo {
        Some(crate::git_ops::not_a_repo())
    } else if trim(request.branch).len() == 0 {
        Some(crate::git_ops::empty_branch())
    } else if requested_base(request, branches) is Err {
        Some(requested_base(request, branches)->Err_0)
    } else {
        match worktree_target(file_name, trim(request.branch), request.target_path, home) {
            Err(e) => Some(e),
            Ok(_) => None,
        }
    }
}

/// The job that a request makes, as it stands once it has joined the
/// queue with `ahead` jobs before it.
pub open spec fn started_job(
    request: RequestView,
    branches: Seq<(Seq<char>, bool)>,
    file_name: Option<Seq<char>>,
    home: Option<Seq<char>>,
    job_id: Seq<char>,
    now: i64,
    ahead: nat,
) -> JobView {
    JobView {
        job_id,
        project_id: request.project_id,
        project_path: trim(request.project_path),
        project_key: path_key(trim(request.project_path)),
        worktree_path: worktree_target(
            file_name,
            trim(request.branch),
            request.target_path,
            home,
        )->Ok_0,
        branch: trim(request.branch),
        base_branch: requested_base(request, branches)->Ok_0,
        create_branch: request.create_branch,
        step: WorktreeInitStep::Pending,
        message: queue_message(ahead),
        error: None,
        updated_at: now,
        is_running: ahead == 0,
        cancel_requested: false,
    }
}

impl WorktreeInitState {
    /// Takes in a request under the identifier `job_id` at the time `now`.
    /// A request that passes the checks becomes a job at the end of its
    /// project's queue; it is to be started at once exactly where no job of
    /// the project is ahead of it, which the second part of the answer
    /// says.
    pub fn start_job(
        &mut self,
        request: WorktreeInitStartRequest,
        is_repo: bool,
        branches: &Vec<BranchListItem>,
        file_name: Option<&str>,
        home: Option<&str>,
        job_id: String,
        now: i64,
    ) -> (r: Result<(WorktreeInitStartResult, bool), String>)
        ensures
            match start_problem(
                request@,
                is_repo,
                branch_views(branches@),
                opt_str(file_name),
                opt_str(home),
            ) {
                Some(problem) => r is Err && r->Err_0@ == problem && final(self)@ == old(self)@,
                None => {
                    let key = path_key(trim(request@.project_path));
                    let ahead = jobs_of(old(self)@.queues, key).len();
                    let job = started_job(
                        request@,
                        branch_views(branches@),
                        opt_str(file_name),
                        opt_str(home),
                        job_id@,
                        now,
                        ahead,
                    );
                    &&& r is Ok
                    &&& r->Ok_0.1 == (ahead == 0)
                    &&& r->Ok_0.0@ == (StartView {
                        job_id: job.job_id,
                        project_id: job.project_id,
                        project_path: job.project_path,
                        worktree_path: job.worktree_path,
                        branch: job.branch,
                        base_branch: job.base_branch,
                        step: WorktreeInitStep::Pending,
                        message: job.message,
                    })
                    &&& final(self)@.jobs == old(self)@.jobs.push(job)
                    &&& final(self)@.queues == enqueued(old(self)@.queues, key, job_id@)
                },
            },
    {
        let path_chars = chars_of(request.project_path.as_str());
        let project_path = string_of(trim_slice(path_chars.as_slice()));
        if project_path.as_str().is_empty() {
            return Err(text_of("项目路径不能为空"));
        }
        if !is_repo {
            return Err(text_of("不是 Git 仓库"));
        }
        let branch_chars = chars_of(request.branch.as_str());
        let branch = string_of(trim_slice(branch_chars.as_slice()));
        if branch.as_str().is_empty() {
            return Err(text_of("分支名不能为空"));
        }
        let base_branch = if request.create_branch {
            let asked = match &request.base_branch {
                Some(b) => Some(b.as_str()),
                None => None,
            };
            match resolve_request_base_branch(asked, branches) {
                Ok(b) => Some(b),
                Err(e) => {
                    return Err(e);
                },
            }
        } else {
            None
        };
        let target = match &request.target_path {
            Some(t) => Some(t.as_str()),
            None => None,
        };
        let worktree_path = match resolve_worktree_target_path(
            file_name,
            branch.as_str(),
            target,
            home,
        ) {
            Ok(p) => p,
            Err(e) => {
                return Err(e);
            },
        };
        proof {
            crate::text::lemma_trim_idempotent(request.branch@);
        }
        let project_key = normalize_path_for_compare(project_path.as_str());
        let ahead = enqueue_project_job(
            &mut self.project_queues,
            project_key.as_str(),
            job_id.as_str(),
        );
        let message = build_queue_message(ahead);
        let job = WorktreeInitJob {
            job_id: text_of(job_id.as_str()),
            project_id: text_of(request.project_id.as_str()),
            project_path: text_of(project_path.as_str()),
            project_key,
            worktree_path: text_of(worktree_path.as_str()),
            branch: text_of(branch.as_str()),
            base_branch: copy_opt(&base_branch),
            create_branch: request.create_branch,
            step: WorktreeInitStep::Pending,
            message: text_of(message.as_str()),
            error: None,
            updated_at: now,
            is_running: ahead == 0,
            cancel_requested: false,
        };
        let ghost before = self@.jobs;
        self.jobs.push(job);
        assert(self@.jobs =~= before.push(job@));
        Ok(
            (
                WorktreeInitStartResult {
                    job_id,
                    project_id: request.project_id,
                    project_path,
                    worktree_path,
                    branch,
                    base_branch,
                    step: WorktreeInitStep::Pending,
                    message,
                },
                ahead == 0,
            ),
        )
    }

    /// Takes in a request under a fresh identifier, at the present time.
    /// What is refused, and why, does not depend on either.
    pub fn start(
        &mut self,
        request: WorktreeInitStartRequest,
        is_repo: bool,
        branches: &Vec<BranchListItem>,
        file_name: Option<&str>,
        home: Option<&str>,
    ) -> (r: Result<(WorktreeInitStartResult, bool), String>)
        ensures
            match start_problem(
                request@,
                is_repo,
                branch_views(branches@),
                opt_str(file_name),
                opt_str(home),
            ) {
                Some(problem) => r is Err && r->Err_0@ == problem && final(self)@ == old(self)@,
                None => {
                    let key = path_key(trim(request@.project_path));
                    let ahead = jobs_of(old(self)@.queues, key).len();
                    &&& r is Ok
                    &&& r->Ok_0.1 == (ahead == 0)
                    &&& r->Ok_0.0@.project_id == request@.project_id
                    &&& r->Ok_0.0@.branch == trim(request@.branch)
                    &&& r->Ok_0.0@.step == WorktreeInitStep::Pending
                    &&& r->Ok_0.0@.message == queue_message(ahead)
                    &&& final(self)@.jobs.len() == old(self)@.jobs.len() + 1
                    &&& final(self)@.jobs.last().job_id == r->Ok_0.0@.job_id
                    &&& final(self)@.queues == enqueued(old(self)@.queues, key, r->Ok_0.0@.job_id)
                },
            },
    {
        let job_id = new_job_id();
        let now = now_millis();
        self.start_job(request, is_repo, branches, file_name, home, job_id, now)
    }
}

/// What a running job says at a step.
pub open spec fn step_message(step: WorktreeInitStep, create_branch: bool) -> Seq<char> {
    match step {
        WorktreeInitStep::Validating => "执行中：校验仓库状态..."@,
        WorktreeInitStep::CheckingBranch => if create_branch {
            "执行中：校验分支与基线可用性..."@
        } else {
            "执行中：校验分支可用性..."@
        },
        WorktreeInitStep::CreatingWorktree => "执行中：正在创建 Git worktree..."@,
        WorktreeInitStep::PreparingEnvironment => "执行中：准备工作区环境..."@,
        WorktreeInitStep::Syncing => "执行中：同步工作区状态..."@,
        _ => seq![],
    }
}

pub fn running_message(step: WorktreeInitStep, create_branch: bool) -> (r: String)
    ensures
        r@ == step_message(step, create_branch),
{
    match step {
        WorktreeInitStep::Validating => text_of("执行中：校验仓库状态..."),
        WorktreeInitStep::CheckingBranch => {
            if create_branch {
                text_of("执行中：校验分支与基线可用性...")
            } else {
                text_of("执行中：校验分支可用性...")
            }
        },
        WorktreeInitStep::CreatingWorktree => text_of("执行中：正在创建 Git worktree..."),
        WorktreeInitStep::PreparingEnvironment => text_of("执行中：准备工作区环境..."),
        WorktreeInitStep::Syncing => text_of("执行中：同步工作区状态..."),
        _ => String::new(),
    }
}

/// The step after `step` in the run of a job; the last step has none.
pub fn next_running_step(step: WorktreeInitStep) -> (r: Option<WorktreeInitStep>)
    ensures
        r == (match step {
            WorktreeInitStep::Pending => Some(WorktreeInitStep::Validating),
            WorktreeInitStep::Validating => Some(WorktreeInitStep::CheckingBranch),
            WorktreeInitStep::CheckingBranch => Some(WorktreeInitStep::CreatingWorktree),
            WorktreeInitStep::CreatingWorktree => Some(WorktreeInitStep::PreparingEnvironment),
            WorktreeInitStep::PreparingEnvironment => Some(WorktreeInitStep::Syncing),
            _ => None,
        }),
{
    match step {
        WorktreeInitStep::Pending => Some(WorktreeInitStep::Validating),
        WorktreeInitStep::Validating => Some(WorktreeInitStep::CheckingBranch),
        WorktreeInitStep::CheckingBranch => Some(WorktreeInitStep::CreatingWorktree),
        WorktreeInitStep::CreatingWorktree => Some(WorktreeInitStep::PreparingEnvironment),
        WorktreeInitStep::PreparingEnvironment => Some(WorktreeInitStep::Syncing),
        _ => None,
    }
}

/// Whether a job that was asked to stop stops before `step`: before the
/// branch is checked, and before the worktree is created. After the
/// worktree is created the job stops by taking the worktree away again.
pub fn stops_before(step: WorktreeInitStep, cancel_requested: bool) -> (r: bool)
    ensures
        r == (cancel_requested && (step == WorktreeInitStep::CheckingBranch || step
            == WorktreeInitStep::CreatingWorktree)),
{
    cancel_requested && match step {
        WorktreeInitStep::CheckingBranch => true,
        WorktreeInitStep::CreatingWorktree => true,
        _ => false,
    }
}

pub open spec fn opt_owned(o: Option<String>) -> Option<Seq<char>> {
    match o {
        Some(s) => Some(s@),
        None => None,
    }
}

/// What a job says at its end: the step it ends at, its message, and its
/// error. A warning of a job that is ready is reported as its error text.
pub open spec fn final_progress(outcome: JobRunOutcome) -> (WorktreeInitStep, Seq<char>, Option<
    Seq<char>,
>) {
    match outcome {
        JobRunOutcome::Ready(warning) => (
            WorktreeInitStep::Ready,
            if warning is Some {
                "创建完成（环境初始化存在告警）"@
            } else {
                "创建完成"@
            },
            opt_owned(warning),
        ),
        JobRunOutcome::Failed(error) => (WorktreeInitStep::Failed, "创建失败"@, Some(error@)),
        JobRunOutcome::Cancelled(message) => (WorktreeInitStep::Cancelled, message@, None),
    }
}

pub fn finish_job(outcome: JobRunOutcome) -> (r: (WorktreeInitStep, String, Option<String>))
    ensures
        (r.0, r.1@, opt_owned(r.2)) == final_progress(outcome),
{
    match outcome {
        JobRunOutcome::Ready(warning) => {
            let message = if warning.is_some() {
                text_of("创建完成（环境初始化存在告警）")
            } else {
                text_of("创建完成")
            };
            (WorktreeInitStep::Ready, message, warning)
        },
        JobRunOutcome::Failed(error) => (WorktreeInitStep::Failed, text_of("创建失败"), Some(error)),
        JobRunOutcome::Cancelled(message) => (WorktreeInitStep::Cancelled, message, None),
    }
}

/// How a job ends that was asked to stop after its worktree was created:
/// cancelled where the worktree could be taken away again, failed where it
/// could not.
pub fn rollback_created_worktree(removed: Result<(), String>, created_path: &str) -> (r:
    JobRunOutcome)
    ensures
        match removed {
            Ok(_) => r matches JobRunOutcome::Cancelled(m) && m@
                == "创建任务已取消，已回滚新建 worktree"@,
            Err(e) => r matches JobRunOutcome::Failed(m) && m@ == "创建任务已取消，但回滚失败："@
                + e@ + "。请手动清理目录 "@ + created_path@,
        },
{
    match removed {
        Ok(_) => JobRunOutcome::Cancelled(text_of("创建任务已取消，已回滚新建 worktree")),
        Err(e) => {
            let mut message = chars_of("创建任务已取消，但回滚失败：");
            let detail = chars_of(e.as_str());
            push_chars(&mut message, detail.as_slice());
            let middle = chars_of("。请手动清理目录 ");
            push_chars(&mut message, middle.as_slice());
            let path = chars_of(created_path);
            push_chars(&mut message, path.as_slice());
            JobRunOutcome::Failed(string_of(message.as_slice()))
        },
    }
}

/// What a running job tells its user when it is asked to stop.
pub fn cancel_notice(job: &WorktreeInitJob) -> (r: WorktreeInitProgressPayload)
    ensures
        r@ == progress_of(job@, job.step, "已收到取消请求，等待当前步骤结束"@, None),
{
    progress_payload(job, job.step, text_of("已收到取消请求，等待当前步骤结束"), None)
}

/// The outcome of a job that stopped before its worktree was created.
pub fn cancelled_outcome(waiting: bool) -> (r: JobRunOutcome)
    ensures
        r matches JobRunOutcome::Cancelled(m) && m@ == (if waiting {
            "已取消（已从队列移除）"@
        } else {
            "已取消"@
        }),
{
    if waiting {
        JobRunOutcome::Cancelled(text_of("已取消（已从队列移除）"))
    } else {
        JobRunOutcome::Cancelled(text_of("已取消"))
    }
}

/// The answer to a request to stop a job.
pub fn cancel_result(job_id: &str) -> (r: WorktreeInitCancelResult)
    ensures
        r.job_id@ == job_id@,
        r.cancelled,
{
    WorktreeInitCancelResult { job_id: text_of(job_id), cancelled: true }
}

} // verus!
