//! The queues of worktree jobs, one per project: jobs of one project run
//! one after the other, in the order in which they were started.

use crate::fields::{digits_of, unsigned_chars};
use crate::models::{BranchListItem, WorktreeInitStep};
use crate::text::{chars_of, push_chars, str_eq, string_of, text_of, trim, trim_slice};
use vstd::prelude::*;

verus! {

pub open spec fn opt_text(o: Option<String>) -> Option<Seq<char>> {
    match o {
        Some(s) => Some(s@),
        None => None,
    }
}

pub open spec fn opt_str(o: Option<&str>) -> Option<Seq<char>> {
    match o {
        Some(s) => Some(s@),
        None => None,
    }
}

pub open spec fn texts(items: Seq<String>) -> Seq<Seq<char>> {
    Seq::new(items.len(), |i: int| items[i]@)
}

/// The jobs that wait or run, by project; a project without jobs has no
/// queue.
pub struct ProjectQueues {
    queues: Vec<(String, Vec<String>)>,
}

pub open spec fn queue_views(v: Seq<(String, Vec<String>)>) -> Seq<(Seq<char>, Seq<Seq<char>>)> {
    Seq::new(v.len(), |i: int| (v[i].0@, texts(v[i].1@)))
}

impl View for ProjectQueues {
    type V = Seq<(Seq<char>, Seq<Seq<char>>)>;

    closed spec fn view(&self) -> Seq<(Seq<char>, Seq<Seq<char>>)> {
        queue_views(self.queues@)
    }
}

/// Index of the first queue of `key` at or after `i`; the length where
/// there is none.
pub open spec fn seek_queue(q: Seq<(Seq<char>, Seq<Seq<char>>)>, key: Seq<char>, i: int) -> int
    decreases q.len() - i,
{
    if 0 <= i < q.len() && q[i].0 != key {
        seek_queue(q, key, i + 1)
    } else {
        i
    }
}

/// The jobs of a project, oldest first; none where it has no queue.
pub open spec fn jobs_of(q: Seq<(Seq<char>, Seq<Seq<char>>)>, key: Seq<char>) -> Seq<Seq<char>> {
    let i = seek_queue(q, key, 0);
    if 0 <= i < q.len() {
        q[i].1
    } else {
        seq![]
    }
}

pub open spec fn has_queue(q: Seq<(Seq<char>, Seq<Seq<char>>)>, key: Seq<char>) -> bool {
    seek_queue(q, key, 0) < q.len()
}

/// The queues after a job joined the queue of its project.
pub open spec fn enqueued(q: Seq<(Seq<char>, Seq<Seq<char>>)>, key: Seq<char>, job: Seq<char>) -> Seq<
    (Seq<char>, Seq<Seq<char>>),
> {
    let i = seek_queue(q, key, 0);
    if 0 <= i < q.len() {
        q.update(i, (key, q[i].1.push(job)))
    } else {
        q.push((key, seq![job]))
    }
}

/// Index of the first job `id` at or after `i`; the length where there is
/// none.
pub open spec fn seek_job(jobs: Seq<Seq<char>>, id: Seq<char>, i: int) -> int
    decreases jobs.len() - i,
{
    if 0 <= i < jobs.len() && jobs[i] != id {
        seek_job(jobs, id, i + 1)
    } else {
        i
    }
}

/// A queue without the job that finished.
pub open spec fn without_job(jobs: Seq<Seq<char>>, finished: Seq<char>) -> Seq<Seq<char>> {
    let p = seek_job(jobs, finished, 0);
    if 0 <= p < jobs.len() {
        jobs.remove(p)
    } else {
        jobs
    }
}

/// The queues after a job left the queue of its project; a queue that is
/// empty then is given up.
pub open spec fn dequeued(
    q: Seq<(Seq<char>, Seq<Seq<char>>)>,
    key: Seq<char>,
    finished: Seq<char>,
) -> Seq<(Seq<char>, Seq<Seq<char>>)> {
    let i = seek_queue(q, key, 0);
    if 0 <= i < q.len() {
        let left = without_job(q[i].1, finished);
        if left.len() == 0 {
            q.remove(i)
        } else {
            q.update(i, (key, left))
        }
    } else {
        q
    }
}

/// The job that is next in a project's queue once `finished` has left it.
pub open spec fn next_after(
    q: Seq<(Seq<char>, Seq<Seq<char>>)>,
    key: Seq<char>,
    finished: Seq<char>,
) -> Option<Seq<char>> {
    let left = without_job(jobs_of(q, key), finished);
    if left.len() > 0 {
        Some(left[0])
    } else {
        None
    }
}

impl ProjectQueues {
    pub fn new() -> (q: Self)
        ensures
            q@.len() == 0,
    {
        ProjectQueues { queues: Vec::new() }
    }

    fn find(&self, key: &str) -> (r: usize)
        ensures
            r == seek_queue(self@, key@, 0),
            r <= self.queues.len(),
    {
        let mut i: usize = 0;
        while i < self.queues.len() && !str_eq(self.queues[i].0.as_str(), key)
            invariant
                i <= self.queues.len(),
                seek_queue(self@, key@, 0) == seek_queue(self@, key@, i as int),
            decreases self.queues.len() - i,
        {
            i += 1;
        }
        i
    }

    /// Whether the project has a queue.
    pub fn contains_key(&self, key: &str) -> (r: bool)
        ensures
            r == has_queue(self@, key@),
    {
        self.find(key) < self.queues.len()
    }

    /// How many jobs the project's queue holds.
    pub fn queue_len(&self, key: &str) -> (r: usize)
        ensures
            r == jobs_of(self@, key@).len(),
    {
        let i = self.find(key);
        if i < self.queues.len() {
            self.queues[i].1.len()
        } else {
            0
        }
    }
}

/// Puts a job at the end of its project's queue and says how many jobs are
/// ahead of it.
pub fn enqueue_project_job(queues: &mut ProjectQueues, project_key: &str, job_id: &str) -> (ahead:
    usize)
    ensures
        final(queues)@ == enqueued(old(queues)@, project_key@, job_id@),
        ahead == jobs_of(old(queues)@, project_key@).len(),
        jobs_of(final(queues)@, project_key@) == jobs_of(old(queues)@, project_key@).push(job_id@),
{
    let i = queues.find(project_key);
    if i < queues.queues.len() {
        let ghost before = queues@;
        let (_key, mut jobs) = queues.queues.remove(i);
        let ahead = jobs.len();
        let ghost old_jobs = texts(jobs@);
        jobs.push(text_of(job_id));
        assert(texts(jobs@) =~= old_jobs.push(job_id@));
        queues.queues.insert(i, (text_of(project_key), jobs));
        assert(queues@ =~= before.update(i as int, (project_key@, old_jobs.push(job_id@))));
        proof {
            lemma_seek_queue_bounds(before, project_key@, 0);
            lemma_seek_same_keys(before, queues@, project_key@, 0);
        }
        ahead
    } else {
        let ghost before = queues@;
        let mut jobs: Vec<String> = Vec::new();
        jobs.push(text_of(job_id));
        assert(texts(jobs@) =~= seq![job_id@]);
        queues.queues.push((text_of(project_key), jobs));
        assert(queues@ =~= before.push((project_key@, seq![job_id@])));
        proof {
            lemma_seek_pushed(before, project_key@, seq![job_id@], 0);
            assert(jobs_of(before, project_key@).push(job_id@) =~= seq![job_id@]);
        }
        0
    }
}

pub proof fn lemma_seek_queue_bounds(q: Seq<(Seq<char>, Seq<Seq<char>>)>, key: Seq<char>, i: int)
    requires
        0 <= i <= q.len(),
    ensures
        i <= seek_queue(q, key, i) <= q.len(),
        seek_queue(q, key, i) < q.len() ==> q[seek_queue(q, key, i)].0 == key,
    decreases q.len() - i,
{
    if i < q.len() && q[i].0 != key {
        lemma_seek_queue_bounds(q, key, i + 1);
    }
}

proof fn lemma_seek_same_keys(
    a: Seq<(Seq<char>, Seq<Seq<char>>)>,
    b: Seq<(Seq<char>, Seq<Seq<char>>)>,
    key: Seq<char>,
    i: int,
)
    requires
        0 <= i <= a.len(),
        a.len() == b.len(),
        forall|k: int| 0 <= k < a.len() ==> (#[trigger] a[k]).0 == b[k].0,
    ensures
        seek_queue(a, key, i) == seek_queue(b, key, i),
    decreases a.len() - i,
{
    if i < a.len() {
        assert(a[i].0 == b[i].0);
        if a[i].0 != key {
            lemma_seek_same_keys(a, b, key, i + 1);
        }
    }
}

proof fn lemma_seek_pushed(
    a: Seq<(Seq<char>, Seq<Seq<char>>)>,
    key: Seq<char>,
    jobs: Seq<Seq<char>>,
    i: int,
)
    requires
        0 <= i <= a.len(),
        seek_queue(a, key, i) == a.len(),
    ensures
        seek_queue(a.push((key, jobs)), key, i) == a.len(),
    decreases a.len() - i,
{
    let b = a.push((key, jobs));
    if i < a.len() {
        assert(b[i] == a[i]);
        lemma_seek_pushed(a, key, jobs, i + 1);
    }
}

fn find_job(jobs: &Vec<String>, id: &str) -> (r: usize)
    ensures
        r == seek_job(texts(jobs@), id@, 0),
        r <= jobs.len(),
{
    let mut i: usize = 0;
    while i < jobs.len() && !str_eq(jobs[i].as_str(), id)
        invariant
            i <= jobs.len(),
            seek_job(texts(jobs@), id@, 0) == seek_job(texts(jobs@), id@, i as int),
        decreases jobs.len() - i,
    {
        i += 1;
    }
    i
}

/// Takes a finished job out of its project's queue and names the job that
/// is first in the queue then.
pub fn dequeue_project_job(queues: &mut ProjectQueues, project_key: &str, finished_job_id: &str) -> (next:
    Option<String>)
    ensures
        final(queues)@ == dequeued(old(queues)@, project_key@, finished_job_id@),
        opt_text(next) == next_after(old(queues)@, project_key@, finished_job_id@),
{
    let i = queues.find(project_key);
    if i >= queues.queues.len() {
        return None;
    }
    let ghost before = queues@;
    let (_key, mut jobs) = queues.queues.remove(i);
    let ghost old_jobs = texts(jobs@);
    assert(old_jobs == before[i as int].1);
    let p = find_job(&jobs, finished_job_id);
    if p < jobs.len() {
        jobs.remove(p);
        assert(texts(jobs@) =~= old_jobs.remove(p as int));
    }
    let ghost left = texts(jobs@);
    if jobs.len() == 0 {
        assert(queues@ =~= before.remove(i as int));
        return None;
    }
    let next = text_of(jobs[0].as_str());
    assert(left[0] == jobs@[0]@);
    queues.queues.insert(i, (text_of(project_key), jobs));
    assert(queues@ =~= before.update(i as int, (project_key@, left)));
    Some(next)
}

/// Jobs leave a project's queue in the order in which they joined it: the
/// job that is next after the oldest has finished is the one that joined
/// right after it.
pub proof fn lemma_queue_is_fifo(
    q: Seq<(Seq<char>, Seq<Seq<char>>)>,
    key: Seq<char>,
    first: Seq<char>,
    second: Seq<char>,
)
    requires
        !has_queue(q, key),
        first != second,
    ensures
        ({
            let both = enqueued(enqueued(q, key, first), key, second);
            &&& jobs_of(both, key) == seq![first, second]
            &&& next_after(both, key, first) == Some(second)
            &&& jobs_of(dequeued(both, key, first), key) == seq![second]
            &&& !has_queue(dequeued(dequeued(both, key, first), key, second), key)
        }),
{
    let one = enqueued(q, key, first);
    lemma_seek_queue_bounds(q, key, 0);
    lemma_seek_pushed(q, key, seq![first], 0);
    assert(seek_queue(one, key, 0) == q.len());
    let both = enqueued(one, key, second);
    assert(both =~= one.update(q.len() as int, (key, seq![first].push(second))));
    lemma_seek_same_keys(one, both, key, 0);
    assert(jobs_of(both, key) =~= seq![first, second]);
    let jobs = jobs_of(both, key);
    assert(seek_job(jobs, first, 0) == 0);
    assert(without_job(jobs, first) =~= seq![second]);
    let after = dequeued(both, key, first);
    assert(after =~= both.update(q.len() as int, (key, seq![second])));
    lemma_seek_same_keys(both, after, key, 0);
    assert(seek_job(seq![second], second, 0) == 0);
    assert(without_job(seq![second], second) =~= Seq::<Seq<char>>::empty());
    let gone = dequeued(after, key, second);
    assert(gone =~= after.remove(q.len() as int));
    assert(gone =~= q);
}

pub open spec fn queue_message(ahead: nat) -> Seq<char> {
    if ahead == 0 {
        "排队中（即将开始）"@
    } else {
        "排队中（前方还有 "@ + digits_of(ahead) + " 个任务）"@
    }
}

/// What a waiting job tells its user: how many jobs are ahead of it.
pub fn build_queue_message(ahead: usize) -> (r: String)
    ensures
        r@ == queue_message(ahead as nat),
{
    if ahead == 0 {
        return text_of("排队中（即将开始）");
    }
    let mut out = chars_of("排队中（前方还有 ");
    let count = unsigned_chars(ahead as u64);
    push_chars(&mut out, count.as_slice());
    let tail = chars_of(" 个任务）");
    push_chars(&mut out, tail.as_slice());
    string_of(out.as_slice())
}

/// Whether a step is one at which a job has ended.
pub fn is_terminal_step(step: &WorktreeInitStep) -> (r: bool)
    ensures
        r == (*step == WorktreeInitStep::Ready || *step == WorktreeInitStep::Failed || *step
            == WorktreeInitStep::Cancelled),
{
    match step {
        WorktreeInitStep::Ready => true,
        WorktreeInitStep::Failed => true,
        WorktreeInitStep::Cancelled => true,
        _ => false,
    }
}

pub open spec fn branch_views(v: Seq<BranchListItem>) -> Seq<(Seq<char>, bool)> {
    Seq::new(v.len(), |i: int| (v[i].name@, v[i].is_main))
}

/// Index of the first branch named `name` at or after `i`.
pub open spec fn seek_named(b: Seq<(Seq<char>, bool)>, name: Seq<char>, i: int) -> int
    decreases b.len() - i,
{
    if 0 <= i < b.len() && b[i].0 != name {
        seek_named(b, name, i + 1)
    } else {
        i
    }
}

/// Index of the first main branch at or after `i`.
pub open spec fn seek_main(b: Seq<(Seq<char>, bool)>, i: int) -> int
    decreases b.len() - i,
{
    if 0 <= i < b.len() && !b[i].1 {
        seek_main(b, i + 1)
    } else {
        i
    }
}

/// The branch that a new branch starts from where none is asked for:
/// `develop` where there is one, else the main branch, else the first.
pub open spec fn default_base(b: Seq<(Seq<char>, bool)>) -> Option<Seq<char>> {
    if seek_named(b, "develop"@, 0) < b.len() {
        Some("develop"@)
    } else if 0 <= seek_main(b, 0) < b.len() {
        Some(b[seek_main(b, 0)].0)
    } else if b.len() > 0 {
        Some(b[0].0)
    } else {
        None
    }
}

fn find_named(branches: &Vec<BranchListItem>, name: &str) -> (r: usize)
    ensures
        r == seek_named(branch_views(branches@), name@, 0),
        r <= branches.len(),
{
    let mut i: usize = 0;
    while i < branches.len() && !str_eq(branches[i].name.as_str(), name)
        invariant
            i <= branches.len(),
            seek_named(branch_views(branches@), name@, 0) == seek_named(
                branch_views(branches@),
                name@,
                i as int,
            ),
        decreases branches.len() - i,
    {
        i += 1;
    }
    i
}

pub fn choose_default_base_branch(branches: &Vec<BranchListItem>) -> (r: Option<String>)
    ensures
        opt_text(r) == default_base(branch_views(branches@)),
{
    if find_named(branches, "develop") < branches.len() {
        return Some(text_of("develop"));
    }
    let mut i: usize = 0;
    while i < branches.len() && !branches[i].is_main
        invariant
            i <= branches.len(),
            seek_main(branch_views(branches@), 0) == seek_main(branch_views(branches@), i as int),
        decreases branches.len() - i,
    {
        i += 1;
    }
    if i < branches.len() {
        assert(branch_views(branches@)[i as int].0 == branches@[i as int].name@);
        return Some(text_of(branches[i].name.as_str()));
    }
    if branches.len() > 0 {
        assert(branch_views(branches@)[0].0 == branches@[0].name@);
        return Some(text_of(branches[0].name.as_str()));
    }
    None
}

pub open spec fn unit_result(r: Result<(), String>) -> Result<(), Seq<char>> {
    match r {
        Ok(_) => Ok(()),
        Err(e) => Err(e@),
    }
}

pub open spec fn text_result(r: Result<String, String>) -> Result<Seq<char>, Seq<char>> {
    match r {
        Ok(s) => Ok(s@),
        Err(e) => Err(e@),
    }
}

pub open spec fn branch_taken() -> Seq<char> {
    "分支已存在，请改用“已有分支”模式或更换分支名"@
}

pub open spec fn branch_missing() -> Seq<char> {
    "分支不存在或不可用，请检查分支名称"@
}

/// Checks the branch of a job against the branches there are: a branch
/// that is to be created must not exist, one that is to be checked out
/// must.
pub fn validate_branch(branches: &Vec<BranchListItem>, branch: &str, create_branch: bool) -> (r:
    Result<(), String>)
    ensures
        unit_result(r) == ({
            let listed = seek_named(branch_views(branches@), branch@, 0) < branches@.len();
            if create_branch && listed {
                Err::<(), Seq<char>>(branch_taken())
            } else if !create_branch && !listed {
                Err(branch_missing())
            } else {
                Ok(())
            }
        }),
{
    let listed = find_named(branches, branch) < branches.len();
    if create_branch {
        if listed {
            return Err(text_of("分支已存在，请改用“已有分支”模式或更换分支名"));
        }
        return Ok(());
    }
    if listed {
        return Ok(());
    }
    Err(text_of("分支不存在或不可用，请检查分支名称"))
}

pub open spec fn no_default_base() -> Seq<char> {
    "基线分支不可用：无法确定默认基线分支，请手动选择"@
}

/// The base branch of a job: the one asked for, trimmed, where one is
/// asked for; else the default among the branches there are.
pub fn resolve_request_base_branch(requested: Option<&str>, branches: &Vec<BranchListItem>) -> (r:
    Result<String, String>)
    ensures
        text_result(r) == (if requested is Some && trim(requested->0@).len() > 0 {
            Ok::<Seq<char>, Seq<char>>(trim(requested->0@))
        } else {
            match default_base(branch_views(branches@)) {
                Some(b) => Ok(b),
                None => Err(no_default_base()),
            }
        }),
{
    if let Some(base) = requested {
        let chars = chars_of(base);
        let trimmed = trim_slice(chars.as_slice());
        if trimmed.len() > 0 {
            return Ok(string_of(trimmed));
        }
    }
    match choose_default_base_branch(branches) {
        Some(b) => Ok(b),
        None => Err(text_of("基线分支不可用：无法确定默认基线分支，请手动选择")),
    }
}

pub open spec fn no_base_branch() -> Seq<char> {
    "基线分支不可用：未提供基线分支"@
}

/// The base branch whose start point a job needs, if it needs one: none
/// where the branch exists already; the job's base branch where the branch
/// is to be created, which it must then have.
pub fn resolve_create_start_point(create_branch: bool, base_branch: Option<&str>) -> (r: Result<
    Option<String>,
    String,
>)
    ensures
        match r {
            Ok(None) => !create_branch,
            Ok(Some(b)) => create_branch && base_branch is Some && b@ == base_branch->0@,
            Err(e) => create_branch && base_branch is None && e@ == no_base_branch(),
        },
{
    if !create_branch {
        return Ok(None);
    }
    match base_branch {
        Some(b) => Ok(Some(text_of(b))),
        None => Err(text_of("基线分支不可用：未提供基线分支")),
    }
}

} // verus!
