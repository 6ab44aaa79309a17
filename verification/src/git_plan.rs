//! What git is asked, and in which order of preference: targets of new
//! worktrees, the start point of new branches, the two sides of a
//! comparison.

use crate::command::{is_ascii_alnum, is_ascii_alphanumeric, texts};
use crate::fields::{fields, rows, split_on};
use crate::git_ops::{
    empty_branch, is_git_show_not_found, lossy_string, merge_streams, merged, mentions,
    string_from_utf8_lossy,
    normalize_worktree_add_error, normalize_worktree_remove_error, not_a_repo, says_not_found,
    truncate_bytes, worktree_add_error, worktree_remove_error, GitCommandResult, GitOutput,
    launch_failed,
};
use crate::models::GitWorktreeAddResult;
use crate::text::{
    chars_of, contains_text, push_chars, replace_char, str_eq, string_of, text_of,
    to_ascii_lowercase, trim, trim_slice, with_char_replaced,
};
use vstd::prelude::*;

verus! {

pub open spec fn opt_text(o: Option<String>) -> Option<Seq<char>> {
    match o {
        Some(s) => Some(s@),
        None => None,
    }
}

pub open spec fn opt_str(o: Option<&str>) -> Option<Seq<char>> {
    match o {
        Some(s) => Some(s@),
        None => None,
    }
}

pub open spec fn text_result(r: Result<String, String>) -> Result<Seq<char>, Seq<char>> {
    match r {
        Ok(s) => Ok(s@),
        Err(e) => Err(e@),
    }
}

pub open spec fn args_result(r: Result<Vec<String>, String>) -> Result<Seq<Seq<char>>, Seq<char>> {
    match r {
        Ok(args) => Ok(texts(args@)),
        Err(e) => Err(e@),
    }
}

pub open spec fn repo_char(c: char) -> char {
    if is_ascii_alnum(c) || c == '-' || c == '_' || c == '.' {
        c
    } else {
        '-'
    }
}

pub open spec fn is_edge(c: char) -> bool {
    c == '-' || c == '.' || c == '_'
}

/// First index at or after `i` that holds none of `-`, `.` and `_`.
pub open spec fn skip_edge(s: Seq<char>, i: int) -> int
    decreases s.len() - i,
{
    if 0 <= i < s.len() && is_edge(s[i]) {
        skip_edge(s, i + 1)
    } else {
        i
    }
}

/// Least end `j >= lo` such that `s[j..hi]` holds only `-`, `.` and `_`.
pub open spec fn back_edge(s: Seq<char>, lo: int, hi: int) -> int
    decreases hi,
{
    if 0 <= lo < hi <= s.len() && is_edge(s[hi - 1]) {
        back_edge(s, lo, hi - 1)
    } else {
        hi
    }
}

/// The name under which a repository's worktrees are kept: the name of its
/// directory, every character that is neither an ASCII letter or digit nor
/// one of `-`, `_` and `.` replaced by `-`, and without `-`, `.` and `_` at
/// either end; `repository` where nothing is left, or the directory has no
/// name.
pub open spec fn repo_name(file_name: Option<Seq<char>>) -> Seq<char> {
    let raw = match file_name {
        Some(name) => if trim(name).len() > 0 {
            trim(name)
        } else {
            "repository"@
        },
        None => "repository"@,
    };
    let clean = Seq::new(raw.len(), |i: int| repo_char(raw[i]));
    let a = skip_edge(clean, 0);
    let b = back_edge(clean, a, clean.len() as int);
    if a >= b {
        "repository"@
    } else {
        clean.subrange(a, b)
    }
}

/// The name under which a repository's worktrees are kept. `file_name` is
/// the last component of the repository's path, if it has one.
pub fn resolve_repo_name(file_name: Option<&str>) -> (r: String)
    ensures
        r@ == repo_name(opt_str(file_name)),
{
    let fallback = chars_of("repository");
    let raw: Vec<char> = match file_name {
        Some(name) => {
            let chars = chars_of(name);
            let trimmed = trim_slice(chars.as_slice());
            if trimmed.len() > 0 {
                crate::fields::to_vec(trimmed)
            } else {
                chars_of("repository")
            }
        },
        None => chars_of("repository"),
    };
    let mut clean: Vec<char> = Vec::new();
    let mut i: usize = 0;
    while i < raw.len()
        invariant
            i <= raw.len(),
            clean@ == Seq::new(i as nat, |k: int| repo_char(raw@[k])),
        decreases raw.len() - i,
    {
        let c = raw[i];
        let kept = if is_ascii_alphanumeric(c) || c == '-' || c == '_' || c == '.' {
            c
        } else {
            '-'
        };
        clean.push(kept);
        i += 1;
        assert(clean@ =~= Seq::new(i as nat, |k: int| repo_char(raw@[k])));
    }
    assert(clean@ =~= Seq::new(raw@.len(), |k: int| repo_char(raw@[k])));
    let n = clean.len();
    let mut a: usize = 0;
    while a < n && (clean[a] == '-' || clean[a] == '.' || clean[a] == '_')
        invariant
            a <= n,
            n == clean.len(),
            skip_edge(clean@, 0) == skip_edge(clean@, a as int),
        decreases n - a,
    {
        a += 1;
    }
    let mut b: usize = n;
    while a < b && (clean[b - 1] == '-' || clean[b - 1] == '.' || clean[b - 1] == '_')
        invariant
            a <= b <= n,
            n == clean.len(),
            back_edge(clean@, a as int, n as int) == back_edge(clean@, a as int, b as int),
        decreases b,
    {
        b -= 1;
    }
    if a >= b {
        string_of(fallback.as_slice())
    } else {
        string_of(&clean.as_slice()[a..b])
    }
}

/// The parts of a branch name between slashes, without the blank ones,
/// joined by single slashes; a backslash counts as a slash.
pub open spec fn filled_joined(parts: Seq<Seq<char>>) -> Seq<char>
    decreases parts.len(),
{
    if parts.len() == 0 {
        seq![]
    } else {
        let head = filled_joined(parts.drop_last());
        let part = parts.last();
        if trim(part).len() == 0 {
            head
        } else if head.len() == 0 {
            part
        } else {
            head + seq!['/'] + part
        }
    }
}

pub open spec fn branch_path(branch: Seq<char>) -> Seq<char> {
    filled_joined(fields(with_char_replaced(branch, '\\', '/'), '/'))
}

/// `child` under `base`, with one slash between the two.
pub open spec fn under(base: Seq<char>, child: Seq<char>) -> Seq<char> {
    if base.len() > 0 && base.last() == '/' {
        base + child
    } else {
        base + seq!['/'] + child
    }
}

pub open spec fn no_home() -> Seq<char> {
    "无法解析用户主目录"@
}

/// Where a worktree goes by default:
/// `<home>/.devhaven/worktrees/<repository>/<branch>`.
pub open spec fn default_worktree_path(
    home: Option<Seq<char>>,
    repository: Seq<char>,
    branch: Seq<char>,
) -> Result<Seq<char>, Seq<char>> {
    match home {
        None => Err(no_home()),
        Some(home) => if branch_path(branch).len() == 0 {
            Err(empty_branch())
        } else {
            Ok(
                under(
                    under(under(under(home, ".devhaven"@), "worktrees"@), repository),
                    branch_path(branch),
                ),
            )
        },
    }
}

fn push_under(base: &mut Vec<char>, child: &[char])
    ensures
        final(base)@ == under(old(base)@, child@),
{
    let n = base.len();
    if !(n > 0 && base[n - 1] == '/') {
        base.push('/');
    }
    push_chars(base, child);
    assert(base@ =~= under(old(base)@, child@));
}

/// Where a worktree of `branch` goes by default. `home` is the user's home
/// directory, if it is known; `repository` the name from
/// `resolve_repo_name`.
pub fn resolve_default_worktree_path(home: Option<&str>, repository: &str, branch: &str) -> (r:
    Result<String, String>)
    ensures
        text_result(r) == default_worktree_path(opt_str(home), repository@, branch@),
{
    let home = match home {
        Some(h) => h,
        None => {
            return Err(text_of("无法解析用户主目录"));
        },
    };
    let chars = chars_of(branch);
    let slashed = replace_char(chars.as_slice(), '\\', '/');
    let parts = split_on(slashed.as_slice(), '/');
    let mut joined: Vec<char> = Vec::new();
    let mut i: usize = 0;
    assert(rows(parts@).subrange(0, 0) =~= seq![]);
    while i < parts.len()
        invariant
            i <= parts.len(),
            joined@ == filled_joined(rows(parts@).subrange(0, i as int)),
        decreases parts.len() - i,
    {
        let ghost after = rows(parts@).subrange(0, i + 1);
        assert(after.drop_last() =~= rows(parts@).subrange(0, i as int));
        assert(after.last() == parts@[i as int]@);
        let part = parts[i].as_slice();
        if trim_slice(part).len() > 0 {
            if joined.len() > 0 {
                joined.push('/');
            }
            push_chars(&mut joined, part);
        }
        assert(joined@ =~= filled_joined(after));
        i += 1;
    }
    assert(rows(parts@).subrange(0, parts@.len() as int) =~= rows(parts@));
    if joined.len() == 0 {
        return Err(text_of("分支名不能为空"));
    }
    let mut path = chars_of(home);
    let devhaven = chars_of(".devhaven");
    push_under(&mut path, devhaven.as_slice());
    let worktrees = chars_of("worktrees");
    push_under(&mut path, worktrees.as_slice());
    let repo = chars_of(repository);
    push_under(&mut path, repo.as_slice());
    push_under(&mut path, joined.as_slice());
    Ok(string_of(path.as_slice()))
}

/// Where the worktree of a branch goes: to the target that was asked for,
/// trimmed, where one was; else to the default place. The default place is
/// worked out in either case, and a failure to do so fails the whole.
pub open spec fn worktree_target(
    file_name: Option<Seq<char>>,
    branch: Seq<char>,
    target_path: Option<Seq<char>>,
    home: Option<Seq<char>>,
) -> Result<Seq<char>, Seq<char>> {
    if trim(branch).len() == 0 {
        Err(empty_branch())
    } else {
        match default_worktree_path(home, repo_name(file_name), trim(branch)) {
            Err(e) => Err(e),
            Ok(default) => if target_path is Some && trim(target_path->0).len() > 0 {
                Ok(trim(target_path->0))
            } else {
                Ok(default)
            },
        }
    }
}

/// Where the worktree of `branch` goes. `file_name` is the last component
/// of the repository's path, `home` the user's home directory.
pub fn resolve_worktree_target_path(
    file_name: Option<&str>,
    branch: &str,
    target_path: Option<&str>,
    home: Option<&str>,
) -> (r: Result<String, String>)
    ensures
        text_result(r) == worktree_target(
            opt_str(file_name),
            branch@,
            opt_str(target_path),
            opt_str(home),
        ),
{
    let chars = chars_of(branch);
    let trimmed = trim_slice(chars.as_slice());
    if trimmed.len() == 0 {
        return Err(text_of("分支名不能为空"));
    }
    let branch_text = string_of(trimmed);
    let repository = resolve_repo_name(file_name);
    let default = match resolve_default_worktree_path(
        home,
        repository.as_str(),
        branch_text.as_str(),
    ) {
        Ok(path) => path,
        Err(e) => {
            return Err(e);
        },
    };
    if let Some(target) = target_path {
        let target_chars = chars_of(target);
        let target_trimmed = trim_slice(target_chars.as_slice());
        if target_trimmed.len() > 0 {
            return Ok(string_of(target_trimmed));
        }
    }
    Ok(default)
}

/// Whether the remote has a branch.
#[derive(Debug, Clone, PartialEq, Eq)]
pub enum RemoteBranchCheck {
    Exists,
    NotFound,
    Error(String),
}

/// Reads the outcome of `git ls-remote --exit-code --heads origin
/// <branch>`: exit code 2 says that the branch is not there.
pub fn branch_exists_on_remote(launched: Result<(GitOutput, Option<i32>), String>) -> (r:
    RemoteBranchCheck)
    ensures
        match launched {
            Ok((output, code)) => if output.success {
                r == RemoteBranchCheck::Exists
            } else if code == Some(2i32) {
                r == RemoteBranchCheck::NotFound
            } else {
                r matches RemoteBranchCheck::Error(m) && m@ == merged(
                    output.stdout@,
                    output.stderr@,
                )
            },
            Err(e) => r matches RemoteBranchCheck::Error(m) && m@ == launch_failed() + e@,
        },
{
    match launched {
        Ok((output, code)) => {
            if output.success {
                return RemoteBranchCheck::Exists;
            }
            match code {
                Some(c) => {
                    if c == 2 {
                        return RemoteBranchCheck::NotFound;
                    }
                },
                None => {},
            }
            RemoteBranchCheck::Error(
                merge_streams(output.stdout.as_str(), output.stderr.as_str()),
            )
        },
        Err(e) => RemoteBranchCheck::Error(crate::git_ops::launch_failure(e.as_str())),
    }
}

/// What is known of a base branch when the start point is chosen.
#[derive(Debug, Clone, PartialEq, Eq)]
pub struct StartPointProbe {
    /// Whether the repository has a remote named `origin`.
    pub has_origin: bool,
    /// What the remote says of the branch.
    pub remote: RemoteBranchCheck,
    /// Why fetching the branch failed, if it was tried and failed.
    pub fetch_error: Option<String>,
    /// Whether `origin/<branch>` resolves to a commit locally.
    pub remote_ref_local: bool,
    /// Whether `<branch>` resolves to a commit locally.
    pub branch_local: bool,
}

pub open spec fn remote_ref(branch: Seq<char>) -> Seq<char> {
    "origin/"@ + branch
}

/// The start point for a new branch off `branch`, the remote's state of it
/// before the local one: `origin/<branch>` where the remote has the branch
/// and the reference resolves locally, else `<branch>` where that resolves,
/// else a failure that says what was missing.
pub open spec fn start_point(branch: Seq<char>, p: StartPointProbe) -> Result<
    Seq<char>,
    Seq<char>,
> {
    if !p.has_origin {
        if p.branch_local {
            Ok(branch)
        } else {
            Err("基线分支不可用：未找到本地分支 "@ + branch)
        }
    } else {
        match p.remote {
            RemoteBranchCheck::Exists => if p.remote_ref_local {
                Ok(remote_ref(branch))
            } else if p.branch_local {
                Ok(branch)
            } else {
                match p.fetch_error {
                    Some(e) => Err(
                        "基线分支不可用：远端分支 "@ + remote_ref(branch)
                            + " 刷新失败，且本地不存在同名分支（"@ + e@ + "）"@,
                    ),
                    None => Err(
                        "基线分支不可用：远端分支 "@ + remote_ref(branch) + " 无法在本地解析"@,
                    ),
                }
            },
            RemoteBranchCheck::NotFound => if p.branch_local {
                Ok(branch)
            } else {
                Err("基线分支不可用：远端与本地均不存在分支 "@ + branch)
            },
            RemoteBranchCheck::Error(e) => if p.branch_local {
                Ok(branch)
            } else {
                Err(
                    "基线分支不可用：无法校验远端分支 "@ + branch
                        + "，且本地不存在同名分支（"@ + e@ + "）"@,
                )
            },
        }
    }
}

fn concat2(a: &str, b: &[char]) -> (r: String)
    ensures
        r@ == a@ + b@,
{
    let mut out = chars_of(a);
    push_chars(&mut out, b);
    string_of(out.as_slice())
}

fn concat3(a: &str, b: &[char], c: &str) -> (r: String)
    ensures
        r@ == a@ + b@ + c@,
{
    let mut out = chars_of(a);
    push_chars(&mut out, b);
    let tail = chars_of(c);
    push_chars(&mut out, tail.as_slice());
    string_of(out.as_slice())
}

fn concat5(a: &str, b: &[char], c: &str, d: &str, e: &str) -> (r: String)
    ensures
        r@ == a@ + b@ + c@ + d@ + e@,
{
    let mut out = chars_of(a);
    push_chars(&mut out, b);
    let c_chars = chars_of(c);
    push_chars(&mut out, c_chars.as_slice());
    let d_chars = chars_of(d);
    push_chars(&mut out, d_chars.as_slice());
    let e_chars = chars_of(e);
    push_chars(&mut out, e_chars.as_slice());
    string_of(out.as_slice())
}

pub open spec fn empty_base() -> Seq<char> {
    "基线分支不可用：分支名不能为空"@
}

/// Chooses the start point for a new branch off `base_branch`, given what
/// the probes found.
pub fn resolve_create_branch_start_point(
    is_repo: bool,
    base_branch: &str,
    probe: &StartPointProbe,
) -> (r: Result<String, String>)
    ensures
        text_result(r) == (if !is_repo {
            Err::<Seq<char>, Seq<char>>(not_a_repo())
        } else if trim(base_branch@).len() == 0 {
            Err(empty_base())
        } else {
            start_point(trim(base_branch@), *probe)
        }),
{
    if !is_repo {
        return Err(text_of("不是 Git 仓库"));
    }
    let chars = chars_of(base_branch);
    let branch = trim_slice(chars.as_slice());
    if branch.len() == 0 {
        return Err(text_of("基线分支不可用：分支名不能为空"));
    }
    let mut remote: Vec<char> = chars_of("origin/");
    push_chars(&mut remote, branch);
    assert(remote@ =~= remote_ref(branch@));
    if probe.has_origin {
        match &probe.remote {
            RemoteBranchCheck::Exists => {
                if probe.remote_ref_local {
                    return Ok(string_of(remote.as_slice()));
                }
                if probe.branch_local {
                    return Ok(string_of(branch));
                }
                match &probe.fetch_error {
                    Some(e) => {
                        return Err(
                            concat5(
                                "基线分支不可用：远端分支 ",
                                remote.as_slice(),
                                " 刷新失败，且本地不存在同名分支（",
                                e.as_str(),
                                "）",
                            ),
                        );
                    },
                    None => {
                        return Err(
                            concat3("基线分支不可用：远端分支 ", remote.as_slice(), " 无法在本地解析"),
                        );
                    },
                }
            },
            RemoteBranchCheck::NotFound => {
                if probe.branch_local {
                    return Ok(string_of(branch));
                }
                return Err(concat2("基线分支不可用：远端与本地均不存在分支 ", branch));
            },
            RemoteBranchCheck::Error(e) => {
                if probe.branch_local {
                    return Ok(string_of(branch));
                }
                return Err(
                    concat5(
                        "基线分支不可用：无法校验远端分支 ",
                        branch,
                        "，且本地不存在同名分支（",
                        e.as_str(),
                        "）",
                    ),
                );
            },
        }
    }
    if probe.branch_local {
        return Ok(string_of(branch));
    }
    Err(concat2("基线分支不可用：未找到本地分支 ", branch))
}

fn args2(a: &str, b: &str) -> (r: Vec<String>)
    ensures
        texts(r@) == seq![a@, b@],
{
    let mut v: Vec<String> = Vec::new();
    v.push(text_of(a));
    v.push(text_of(b));
    assert(texts(v@) =~= seq![a@, b@]);
    v
}

fn args3(a: &str, b: &str, c: &str) -> (r: Vec<String>)
    ensures
        texts(r@) == seq![a@, b@, c@],
{
    let mut v: Vec<String> = Vec::new();
    v.push(text_of(a));
    v.push(text_of(b));
    v.push(text_of(c));
    assert(texts(v@) =~= seq![a@, b@, c@]);
    v
}

fn push_arg(args: &mut Vec<String>, a: &[char])
    ensures
        texts(final(args)@) == texts(old(args)@).push(a@),
{
    args.push(string_of(a));
    assert(texts(args@) =~= texts(old(args)@).push(a@));
}

/// Whether the repository has a remote named `origin`: whether `git remote
/// get-url origin` succeeded.
pub fn has_origin_remote(result: &GitCommandResult) -> (r: bool)
    ensures
        r == result.success,
{
    result.success
}

/// What fetching a branch comes to: `result` is the outcome of `git fetch
/// origin <branch>`.
pub fn fetch_origin_branch(result: GitCommandResult) -> (r: Result<(), String>)
    ensures
        match r {
            Ok(_) => result.success,
            Err(e) => !result.success && e == result.output,
        },
{
    if result.success {
        return Ok(());
    }
    Err(result.output)
}

/// The arguments that ask whether a reference resolves to a commit; none
/// for a blank reference, which resolves to nothing.
pub fn ref_exists_locally(reference: &str) -> (r: Option<Vec<String>>)
    ensures
        match r {
            Some(args) => trim(reference@).len() > 0 && texts(args@) == seq![
                "rev-parse"@,
                "--verify"@,
                "--quiet"@,
                trim(reference@) + "^{commit}"@,
            ],
            None => trim(reference@).len() == 0,
        },
{
    let chars = chars_of(reference);
    let trimmed = trim_slice(chars.as_slice());
    if trimmed.len() == 0 {
        return None;
    }
    let mut args = args3("rev-parse", "--verify", "--quiet");
    let mut commit: Vec<char> = Vec::new();
    push_chars(&mut commit, trimmed);
    let suffix = chars_of("^{commit}");
    push_chars(&mut commit, suffix.as_slice());
    assert(commit@ =~= trim(reference@) + "^{commit}"@);
    push_arg(&mut args, commit.as_slice());
    Some(args)
}

pub open spec fn target_exists_message() -> Seq<char> {
    "目标目录已存在，无法创建 worktree"@
}

/// The start point that is handed to git: the one asked for, trimmed, where
/// that leaves anything.
pub open spec fn given_start_point(start_point: Option<Seq<char>>) -> Option<Seq<char>> {
    match start_point {
        Some(s) => if trim(s).len() > 0 {
            Some(trim(s))
        } else {
            None
        },
        None => None,
    }
}

/// The arguments of `git worktree add`: with `-b <branch> <target>
/// [<start point>]` where the branch is to be created, with `<target>
/// <branch>` where it exists.
pub open spec fn worktree_add_args(
    branch: Seq<char>,
    target: Seq<char>,
    create_branch: bool,
    start_point: Option<Seq<char>>,
) -> Seq<Seq<char>> {
    if create_branch {
        match given_start_point(start_point) {
            Some(s) => seq!["worktree"@, "add"@, "-b"@, branch, target, s],
            None => seq!["worktree"@, "add"@, "-b"@, branch, target],
        }
    } else {
        seq!["worktree"@, "add"@, target, branch]
    }
}

/// Adds a worktree for `branch` at `target_path`. Outside a repository,
/// without a branch, and where the target is there already, nothing is
/// run.
pub fn add_worktree(
    is_repo: bool,
    target_path: &str,
    target_exists: bool,
    branch: &str,
    create_branch: bool,
    start_point: Option<&str>,
) -> (r: Result<Vec<String>, String>)
    ensures
        args_result(r) == (if !is_repo {
            Err::<Seq<Seq<char>>, Seq<char>>(not_a_repo())
        } else if trim(branch@).len() == 0 {
            Err(empty_branch())
        } else if target_exists {
            Err(target_exists_message())
        } else {
            Ok(worktree_add_args(trim(branch@), target_path@, create_branch, opt_str(start_point)))
        }),
{
    if !is_repo {
        return Err(text_of("不是 Git 仓库"));
    }
    let chars = chars_of(branch);
    let branch = trim_slice(chars.as_slice());
    if branch.len() == 0 {
        return Err(text_of("分支名不能为空"));
    }
    if target_exists {
        return Err(text_of("目标目录已存在，无法创建 worktree"));
    }
    let target = chars_of(target_path);
    let mut args = args2("worktree", "add");
    if create_branch {
        let flag = chars_of("-b");
        push_arg(&mut args, flag.as_slice());
        push_arg(&mut args, branch);
        push_arg(&mut args, target.as_slice());
        if let Some(start) = start_point {
            let start_chars = chars_of(start);
            let start_trimmed = trim_slice(start_chars.as_slice());
            if start_trimmed.len() > 0 {
                push_arg(&mut args, start_trimmed);
            }
        }
    } else {
        push_arg(&mut args, target.as_slice());
        push_arg(&mut args, branch);
    }
    assert(texts(args@) =~= worktree_add_args(
        branch@,
        target_path@,
        create_branch,
        opt_str(start_point),
    ));
    Ok(args)
}

/// What adding a worktree comes to once its command has run.
pub fn add_worktree_status(
    result: GitCommandResult,
    target_path: &str,
    branch: &str,
    create_branch: bool,
) -> (r: Result<GitWorktreeAddResult, String>)
    ensures
        match r {
            Ok(added) => result.success && added.path@ == target_path@ && added.branch@ == trim(
                branch@,
            ),
            Err(e) => !result.success && e@ == worktree_add_error(result.output@, create_branch),
        },
{
    if result.success {
        let chars = chars_of(branch);
        return Ok(
            GitWorktreeAddResult {
                path: text_of(target_path),
                branch: string_of(trim_slice(chars.as_slice())),
            },
        );
    }
    Err(normalize_worktree_add_error(result.output.as_str(), create_branch))
}

pub open spec fn empty_worktree_path() -> Seq<char> {
    "worktree 路径不能为空"@
}

pub open spec fn is_main_directory() -> Seq<char> {
    "不能删除主仓库目录"@
}

pub open spec fn worktree_gone() -> Seq<char> {
    "worktree 不存在或已移除"@
}

/// The arguments of `git worktree remove`.
pub open spec fn worktree_remove_args(path: Seq<char>, force: bool) -> Seq<Seq<char>> {
    if force {
        seq!["worktree"@, "remove"@, "--force"@, path]
    } else {
        seq!["worktree"@, "remove"@, path]
    }
}

fn holds_key(keys: &Vec<String>, key: &str) -> (r: bool)
    ensures
        r == texts(keys@).contains(key@),
{
    let mut i: usize = 0;
    while i < keys.len()
        invariant
            i <= keys.len(),
            forall|k: int| 0 <= k < i ==> texts(keys@)[k] != key@,
        decreases keys.len() - i,
    {
        if str_eq(keys[i].as_str(), key) {
            assert(texts(keys@)[i as int] == key@);
            return true;
        }
        i += 1;
    }
    false
}

/// Removes a worktree. `base_key` and `worktree_key` are the keys of the
/// repository and of the worktree, `listed_keys` those of the worktrees
/// that the repository lists: only a listed worktree is removed, and never
/// the repository's own directory.
pub fn remove_worktree(
    is_repo: bool,
    base_key: &str,
    worktree_path: &str,
    worktree_key: &str,
    listed_keys: &Vec<String>,
    force: bool,
) -> (r: Result<Vec<String>, String>)
    ensures
        args_result(r) == (if !is_repo {
            Err::<Seq<Seq<char>>, Seq<char>>(not_a_repo())
        } else if trim(worktree_path@).len() == 0 {
            Err(empty_worktree_path())
        } else if base_key@ == worktree_key@ {
            Err(is_main_directory())
        } else if !texts(listed_keys@).contains(worktree_key@) {
            Err(worktree_gone())
        } else {
            Ok(worktree_remove_args(trim(worktree_path@), force))
        }),
{
    if !is_repo {
        return Err(text_of("不是 Git 仓库"));
    }
    let chars = chars_of(worktree_path);
    let path = trim_slice(chars.as_slice());
    if path.len() == 0 {
        return Err(text_of("worktree 路径不能为空"));
    }
    if str_eq(base_key, worktree_key) {
        return Err(text_of("不能删除主仓库目录"));
    }
    if !holds_key(listed_keys, worktree_key) {
        return Err(text_of("worktree 不存在或已移除"));
    }
    let mut args = args2("worktree", "remove");
    if force {
        let flag = chars_of("--force");
        push_arg(&mut args, flag.as_slice());
    }
    push_arg(&mut args, path);
    assert(texts(args@) =~= worktree_remove_args(trim(worktree_path@), force));
    Ok(args)
}

/// Whether git failed to remove a worktree because its directory is gone:
/// pruning may then clear what git still records of it.
pub open spec fn directory_missing(raw: Seq<char>) -> bool {
    mentions(raw, "not a working tree"@) || mentions(raw, "is missing"@) || mentions(
        raw,
        "no such file or directory"@,
    )
}

pub fn should_prune(output: &str) -> (r: bool)
    ensures
        r == directory_missing(output@),
{
    let chars = chars_of(output);
    let lower_chars = to_ascii_lowercase(chars.as_slice());
    let lower = lower_chars.as_slice();
    contains_text(lower, "not a working tree") || contains_text(lower, "is missing")
        || contains_text(lower, "no such file or directory")
}

/// What removing a worktree comes to once its command has run. `pruned_away`
/// says whether, after a failure that called for pruning, pruning succeeded
/// and the worktree is no longer listed.
pub fn remove_worktree_status(result: &GitCommandResult, force: bool, pruned_away: bool) -> (r:
    Result<(), String>)
    ensures
        match r {
            Ok(_) => result.success || (directory_missing(result.output@) && pruned_away),
            Err(e) => !result.success && !(directory_missing(result.output@) && pruned_away)
                && e@ == worktree_remove_error(result.output@, force),
        },
{
    if result.success {
        return Ok(());
    }
    if should_prune(result.output.as_str()) && pruned_away {
        return Ok(());
    }
    Err(normalize_worktree_remove_error(result.output.as_str(), force))
}

/// The most that is read of one side of a comparison, in bytes.
pub const MAX_FILE_BYTES: usize = 1_200_000;

/// Where the modified side of a comparison is read from.
#[derive(Debug, Clone, PartialEq, Eq)]
pub enum DiffSource {
    /// A git object, by its name.
    GitObject(String),
    /// A file of the working tree, by its path below the repository.
    WorktreeFile(String),
}

/// Where the two sides of a comparison are read from.
#[derive(Debug, Clone, PartialEq, Eq)]
pub struct DiffPlan {
    /// The name of the git object that is the original side.
    pub original: String,
    pub modified: DiffSource,
}

pub open spec fn empty_path() -> Seq<char> {
    "路径为空"@
}

/// The path under which the original side is known: the old path where one
/// is given that is not blank, else the present one.
pub open spec fn original_path(relative_path: Seq<char>, old_relative_path: Option<Seq<char>>) -> Seq<
    char,
> {
    match old_relative_path {
        Some(old) => if trim(old).len() > 0 {
            trim(old)
        } else {
            trim(relative_path)
        },
        None => trim(relative_path),
    }
}

/// Plans the comparison of one file. Of staged changes the sides are the
/// file at `HEAD` and the file in the index; of unstaged ones the file in
/// the index and the file in the working tree.
pub fn get_diff_contents(
    is_repo: bool,
    relative_path: &str,
    staged: bool,
    old_relative_path: Option<&str>,
) -> (r: Result<DiffPlan, String>)
    ensures
        match r {
            Ok(plan) => is_repo && trim(relative_path@).len() > 0 && plan.original@ == (if staged {
                "HEAD:"@
            } else {
                ":"@
            }) + original_path(relative_path@, opt_str(old_relative_path)) && (if staged {
                plan.modified matches DiffSource::GitObject(name) && name@ == ":"@ + trim(
                    relative_path@,
                )
            } else {
                plan.modified matches DiffSource::WorktreeFile(path) && path@ == trim(
                    relative_path@,
                )
            }),
            Err(e) => if !is_repo {
                e@ == not_a_repo()
            } else {
                trim(relative_path@).len() == 0 && e@ == empty_path()
            },
        },
{
    if !is_repo {
        return Err(text_of("不是 Git 仓库"));
    }
    let chars = chars_of(relative_path);
    let path = trim_slice(chars.as_slice());
    if path.len() == 0 {
        return Err(text_of("路径为空"));
    }
    let old_chars = match old_relative_path {
        Some(old) => chars_of(old),
        None => Vec::new(),
    };
    let old_trimmed = trim_slice(old_chars.as_slice());
    let old_path = if old_relative_path.is_some() && old_trimmed.len() > 0 {
        old_trimmed
    } else {
        path
    };
    let original = if staged {
        concat2("HEAD:", old_path)
    } else {
        concat2(":", old_path)
    };
    let modified = if staged {
        DiffSource::GitObject(concat2(":", path))
    } else {
        DiffSource::WorktreeFile(string_of(path))
    };
    Ok(DiffPlan { original, modified })
}

/// What `git show` left behind, its standard output as bytes.
#[derive(Debug, Clone, PartialEq, Eq)]
pub struct ShowOutput {
    pub success: bool,
    pub stdout: Vec<u8>,
    pub stderr: String,
}

/// Reads the outcome of `git show <object>`: the object's bytes, cut at
/// `max_bytes`; nothing where git says that there is no such object; a
/// failure otherwise.
pub fn read_git_object_optional(launched: Result<ShowOutput, String>, max_bytes: usize) -> (r:
    Result<(Option<Vec<u8>>, bool), String>)
    ensures
        match launched {
            Err(e) => r is Err && r->Err_0@ == launch_failed() + e@,
            Ok(o) => if o.success {
                r is Ok && r->Ok_0.0 is Some && r->Ok_0.1 == (o.stdout@.len() > max_bytes)
                    && r->Ok_0.0->0@ == (if o.stdout@.len() > max_bytes {
                    o.stdout@.subrange(0, max_bytes as int)
                } else {
                    o.stdout@
                })
            } else if says_not_found(trim(o.stderr@)) {
                r is Ok && r->Ok_0.0 is None && !r->Ok_0.1
            } else {
                r is Err && r->Err_0@ == merged(lossy_string(o.stdout@), o.stderr@)
            },
        },
{
    match launched {
        Err(e) => Err(crate::git_ops::launch_failure(e.as_str())),
        Ok(o) => {
            if o.success {
                let (bytes, truncated) = truncate_bytes(o.stdout, max_bytes);
                return Ok((Some(bytes), truncated));
            }
            let err_chars = chars_of(o.stderr.as_str());
            let stderr = string_of(trim_slice(err_chars.as_slice()));
            if is_git_show_not_found(stderr.as_str()) {
                return Ok((None, false));
            }
            let stdout = string_from_utf8_lossy(o.stdout);
            Err(merge_streams(stdout.as_str(), o.stderr.as_str()))
        },
    }
}

} // verus!
