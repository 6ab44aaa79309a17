//! Git operations: the command lines that stand for them, and the reading
//! of what git answers.

use crate::command::texts;
use crate::models::{GitDiffContents, GitFileStatus};
use crate::reassembly::{drain_utf8_bytes, lossy_rest, lossy_text, replacement};
use crate::text::{
    ascii_lowercase, chars_of, contains, contains_text, push_chars, string_of, text_of,
    to_ascii_lowercase, trim, trim_slice,
};
use vstd::prelude::*;

verus! {

pub open spec fn opt_text(o: Option<String>) -> Option<Seq<char>> {
    match o {
        Some(s) => Some(s@),
        None => None,
    }
}

pub open spec fn opt_str(o: Option<&str>) -> Option<Seq<char>> {
    match o {
        Some(s) => Some(s@),
        None => None,
    }
}

/// What a `Result` with a text for its error says, as a value of
/// specifications.
pub open spec fn unit_result(r: Result<(), String>) -> Result<(), Seq<char>> {
    match r {
        Ok(_) => Ok(()),
        Err(e) => Err(e@),
    }
}

pub open spec fn text_result(r: Result<String, String>) -> Result<Seq<char>, Seq<char>> {
    match r {
        Ok(s) => Ok(s@),
        Err(e) => Err(e@),
    }
}

pub open spec fn args_result(r: Result<Vec<String>, String>) -> Result<Seq<Seq<char>>, Seq<char>> {
    match r {
        Ok(args) => Ok(texts(args@)),
        Err(e) => Err(e@),
    }
}

pub open spec fn not_a_repo() -> Seq<char> {
    "不是 Git 仓库"@
}

pub open spec fn empty_branch() -> Seq<char> {
    "分支名不能为空"@
}

pub open spec fn launch_failed() -> Seq<char> {
    "执行命令失败: "@
}

/// What a git process left behind: whether it succeeded, and what it wrote.
#[derive(Debug, Clone, PartialEq, Eq)]
pub struct GitOutput {
    pub success: bool,
    pub stdout: String,
    pub stderr: String,
}

/// The outcome of a git command as the operations read it.
#[derive(Debug, Clone, PartialEq, Eq)]
pub struct GitCommandResult {
    pub success: bool,
    pub output: String,
}

/// Both streams of a failed command as one message: whichever is not
/// blank, or the two on two lines.
pub open spec fn merged(stdout: Seq<char>, stderr: Seq<char>) -> Seq<char> {
    let out = trim(stdout);
    let err = trim(stderr);
    if err.len() == 0 {
        out
    } else if out.len() == 0 {
        err
    } else {
        trim(out + seq!['\n'] + err)
    }
}

pub fn merge_streams(stdout: &str, stderr: &str) -> (r: String)
    ensures
        r@ == merged(stdout@, stderr@),
{
    let out_chars = chars_of(stdout);
    let err_chars = chars_of(stderr);
    let out = trim_slice(out_chars.as_slice());
    let err = trim_slice(err_chars.as_slice());
    if err.len() == 0 {
        string_of(out)
    } else if out.len() == 0 {
        string_of(err)
    } else {
        let mut both: Vec<char> = Vec::new();
        push_chars(&mut both, out);
        both.push('\n');
        push_chars(&mut both, err);
        assert(both@ =~= trim(stdout@) + seq!['\n'] + trim(stderr@));
        string_of(trim_slice(both.as_slice()))
    }
}

/// The output of a command as the operations read it: standard output,
/// trimmed, where the command succeeded; else both streams as one message.
pub open spec fn command_output(success: bool, stdout: Seq<char>, stderr: Seq<char>) -> Seq<char> {
    if success {
        trim(stdout)
    } else if trim(stderr).len() == 0 {
        trim(stdout)
    } else {
        trim(trim(stdout) + seq!['\n'] + trim(stderr))
    }
}

/// Reads the outcome of a git command: `launched` is what the process left
/// behind, or why it could not be started.
pub fn execute_git_command(launched: Result<GitOutput, String>) -> (r: GitCommandResult)
    ensures
        match launched {
            Ok(o) => r.success == o.success && r.output@ == command_output(
                o.success,
                o.stdout@,
                o.stderr@,
            ),
            Err(e) => !r.success && r.output@ == launch_failed() + e@,
        },
{
    match launched {
        Ok(o) => {
            let out_chars = chars_of(o.stdout.as_str());
            let err_chars = chars_of(o.stderr.as_str());
            let out = trim_slice(out_chars.as_slice());
            let err = trim_slice(err_chars.as_slice());
            let output = if o.success || err.len() == 0 {
                string_of(out)
            } else {
                let mut both: Vec<char> = Vec::new();
                push_chars(&mut both, out);
                both.push('\n');
                push_chars(&mut both, err);
                assert(both@ =~= trim(o.stdout@) + seq!['\n'] + trim(o.stderr@));
                string_of(trim_slice(both.as_slice()))
            };
            GitCommandResult { success: o.success, output }
        },
        Err(e) => {
            let mut message = chars_of("执行命令失败: ");
            let detail = chars_of(e.as_str());
            push_chars(&mut message, detail.as_slice());
            GitCommandResult { success: false, output: string_of(message.as_slice()) }
        },
    }
}

/// The failure of a command that could not be started.
pub fn launch_failure(detail: &str) -> (r: String)
    ensures
        r@ == launch_failed() + detail@,
{
    let mut message = chars_of("执行命令失败: ");
    let text = chars_of(detail);
    push_chars(&mut message, text.as_slice());
    string_of(message.as_slice())
}

/// What an operation comes to whose command has run: success, or the
/// command's output as the failure.
pub fn command_status(result: GitCommandResult) -> (r: Result<(), String>)
    ensures
        unit_result(r) == (if result.success {
            Ok::<(), Seq<char>>(())
        } else {
            Err::<(), Seq<char>>(result.output@)
        }),
{
    if result.success {
        Ok(())
    } else {
        Err(result.output)
    }
}

/// The git binary to run: the system's own where it is there.
pub fn resolve_git_executable(system_git_exists: bool) -> (r: String)
    ensures
        r@ == (if system_git_exists {
            "/usr/bin/git"@
        } else {
            "git"@
        }),
{
    if system_git_exists {
        text_of("/usr/bin/git")
    } else {
        text_of("git")
    }
}

fn args2(a: &str, b: &str) -> (r: Vec<String>)
    ensures
        texts(r@) == seq![a@, b@],
{
    let mut v: Vec<String> = Vec::new();
    v.push(text_of(a));
    v.push(text_of(b));
    assert(texts(v@) =~= seq![a@, b@]);
    v
}

fn args3(a: &str, b: &str, c: &str) -> (r: Vec<String>)
    ensures
        texts(r@) == seq![a@, b@, c@],
{
    let mut v: Vec<String> = Vec::new();
    v.push(text_of(a));
    v.push(text_of(b));
    v.push(text_of(c));
    assert(texts(v@) =~= seq![a@, b@, c@]);
    v
}

fn push_arg(args: &mut Vec<String>, a: &str)
    ensures
        texts(final(args)@) == texts(old(args)@).push(a@),
{
    args.push(text_of(a));
    assert(texts(args@) =~= texts(old(args)@).push(a@));
}

/// The arguments of a command that takes paths: the fixed ones, then the
/// paths.
fn with_paths(prefix: Vec<String>, paths: &Vec<String>) -> (r: Vec<String>)
    ensures
        texts(r@) == texts(prefix@) + texts(paths@),
{
    let mut args = prefix;
    let mut i: usize = 0;
    while i < paths.len()
        invariant
            i <= paths.len(),
            texts(args@) == texts(prefix@) + texts(paths@.subrange(0, i as int)),
        decreases paths.len() - i,
    {
        let ghost before = texts(args@);
        push_arg(&mut args, paths[i].as_str());
        i += 1;
        assert(texts(paths@.subrange(0, i as int)) =~= texts(paths@.subrange(0, i - 1)).push(
            paths@[i - 1]@,
        ));
        assert(texts(args@) =~= texts(prefix@) + texts(paths@.subrange(0, i as int)));
    }
    assert(paths@.subrange(0, paths@.len() as int) =~= paths@);
    args
}

/// The command for an operation on paths, if there is anything to run:
/// outside a repository the operation fails; without paths it has nothing
/// to do.
pub open spec fn path_command(is_repo: bool, prefix: Seq<Seq<char>>, paths: Seq<Seq<char>>) -> Result<
    Option<Seq<Seq<char>>>,
    Seq<char>,
> {
    if !is_repo {
        Err(not_a_repo())
    } else if paths.len() == 0 {
        Ok(None)
    } else {
        Ok(Some(prefix + paths))
    }
}

pub open spec fn opt_args_result(r: Result<Option<Vec<String>>, String>) -> Result<
    Option<Seq<Seq<char>>>,
    Seq<char>,
> {
    match r {
        Ok(Some(args)) => Ok(Some(texts(args@))),
        Ok(None) => Ok(None),
        Err(e) => Err(e@),
    }
}

fn run_git_with_paths(is_repo: bool, prefix: Vec<String>, paths: &Vec<String>) -> (r: Result<
    Option<Vec<String>>,
    String,
>)
    ensures
        opt_args_result(r) == path_command(is_repo, texts(prefix@), texts(paths@)),
{
    if !is_repo {
        return Err(text_of("不是 Git 仓库"));
    }
    if paths.len() == 0 {
        assert(texts(paths@).len() == 0);
        return Ok(None);
    }
    assert(texts(paths@).len() > 0);
    Ok(Some(with_paths(prefix, paths)))
}

/// Stages files: `git add -- <paths>`.
pub fn stage_files(is_repo: bool, relative_paths: &Vec<String>) -> (r: Result<
    Option<Vec<String>>,
    String,
>)
    ensures
        opt_args_result(r) == path_command(is_repo, seq!["add"@, "--"@], texts(relative_paths@)),
{
    run_git_with_paths(is_repo, args2("add", "--"), relative_paths)
}

/// Unstages files: `git reset HEAD -- <paths>`.
pub fn unstage_files(is_repo: bool, relative_paths: &Vec<String>) -> (r: Result<
    Option<Vec<String>>,
    String,
>)
    ensures
        opt_args_result(r) == path_command(
            is_repo,
            seq!["reset"@, "HEAD"@, "--"@],
            texts(relative_paths@),
        ),
{
    run_git_with_paths(is_repo, args3("reset", "HEAD", "--"), relative_paths)
}

/// Discards unstaged changes: `git checkout -- <paths>`.
pub fn discard_files(is_repo: bool, relative_paths: &Vec<String>) -> (r: Result<
    Option<Vec<String>>,
    String,
>)
    ensures
        opt_args_result(r) == path_command(
            is_repo,
            seq!["checkout"@, "--"@],
            texts(relative_paths@),
        ),
{
    run_git_with_paths(is_repo, args2("checkout", "--"), relative_paths)
}

/// What an operation on paths comes to once its command has run.
pub fn path_command_status(output: &GitOutput) -> (r: Result<(), String>)
    ensures
        unit_result(r) == (if output.success {
            Ok::<(), Seq<char>>(())
        } else {
            Err::<(), Seq<char>>(merged(output.stdout@, output.stderr@))
        }),
{
    if output.success {
        Ok(())
    } else {
        Err(merge_streams(output.stdout.as_str(), output.stderr.as_str()))
    }
}

pub open spec fn empty_message() -> Seq<char> {
    "提交信息不能为空"@
}

/// Commits what is staged: `git commit -m <message>`, the message trimmed.
pub fn commit(is_repo: bool, message: &str) -> (r: Result<Vec<String>, String>)
    ensures
        args_result(r) == (if !is_repo {
            Err::<Seq<Seq<char>>, Seq<char>>(not_a_repo())
        } else if trim(message@).len() == 0 {
            Err(empty_message())
        } else {
            Ok(seq!["commit"@, "-m"@, trim(message@)])
        }),
{
    if !is_repo {
        return Err(text_of("不是 Git 仓库"));
    }
    let chars = chars_of(message);
    let trimmed = trim_slice(chars.as_slice());
    if trimmed.len() == 0 {
        return Err(text_of("提交信息不能为空"));
    }
    let text = string_of(trimmed);
    Ok(args3("commit", "-m", text.as_str()))
}

/// Switches branches: `git checkout <branch>`, the name trimmed.
pub fn checkout_branch(is_repo: bool, branch: &str) -> (r: Result<Vec<String>, String>)
    ensures
        args_result(r) == (if !is_repo {
            Err::<Seq<Seq<char>>, Seq<char>>(not_a_repo())
        } else if trim(branch@).len() == 0 {
            Err(empty_branch())
        } else {
            Ok(seq!["checkout"@, trim(branch@)])
        }),
{
    if !is_repo {
        return Err(text_of("不是 Git 仓库"));
    }
    let chars = chars_of(branch);
    let trimmed = trim_slice(chars.as_slice());
    if trimmed.len() == 0 {
        return Err(text_of("分支名不能为空"));
    }
    let text = string_of(trimmed);
    Ok(args2("checkout", text.as_str()))
}

/// Deletes a local branch: `git branch -d <branch>`, or `-D` by force.
pub fn delete_branch(is_repo: bool, branch: &str, force: bool) -> (r: Result<Vec<String>, String>)
    ensures
        args_result(r) == (if !is_repo {
            Err::<Seq<Seq<char>>, Seq<char>>(not_a_repo())
        } else if trim(branch@).len() == 0 {
            Err(empty_branch())
        } else {
            Ok(
                seq![
                    "branch"@,
                    if force {
                        "-D"@
                    } else {
                        "-d"@
                    },
                    trim(branch@),
                ],
            )
        }),
{
    if !is_repo {
        return Err(text_of("不是 Git 仓库"));
    }
    let chars = chars_of(branch);
    let trimmed = trim_slice(chars.as_slice());
    if trimmed.len() == 0 {
        return Err(text_of("分支名不能为空"));
    }
    let text = string_of(trimmed);
    let flag = if force {
        "-D"
    } else {
        "-d"
    };
    Ok(args3("branch", flag, text.as_str()))
}

/// Whether `raw`, in lower case, holds `needle`.
pub open spec fn mentions(raw: Seq<char>, needle: Seq<char>) -> bool {
    contains(ascii_lowercase(raw), needle)
}

/// Why a branch could not be deleted, in the user's words where git's
/// message is a known one, else as git said it.
pub open spec fn delete_branch_error(raw: Seq<char>, force: bool) -> Seq<char> {
    if mentions(raw, "not a git repository"@) {
        not_a_repo()
    } else if mentions(raw, "not found"@) && mentions(raw, "branch"@) {
        "分支不存在或已删除"@
    } else if mentions(raw, "checked out"@) {
        "分支正在当前仓库或其他 worktree 中使用，无法删除"@
    } else if !force && mentions(raw, "not fully merged"@) {
        "分支包含未合并提交，无法删除。请先合并后重试"@
    } else {
        raw
    }
}

pub fn normalize_delete_branch_error(raw: &str, force: bool) -> (r: String)
    ensures
        r@ == delete_branch_error(raw@, force),
{
    let chars = chars_of(raw);
    let lower_chars = to_ascii_lowercase(chars.as_slice());
    let lower = lower_chars.as_slice();
    if contains_text(lower, "not a git repository") {
        return text_of("不是 Git 仓库");
    }
    if contains_text(lower, "not found") && contains_text(lower, "branch") {
        return text_of("分支不存在或已删除");
    }
    if contains_text(lower, "checked out") {
        return text_of("分支正在当前仓库或其他 worktree 中使用，无法删除");
    }
    if !force && contains_text(lower, "not fully merged") {
        return text_of("分支包含未合并提交，无法删除。请先合并后重试");
    }
    string_of(chars.as_slice())
}

/// What deleting a branch comes to once its command has run.
pub fn delete_branch_status(result: GitCommandResult, force: bool) -> (r: Result<(), String>)
    ensures
        unit_result(r) == (if result.success {
            Ok::<(), Seq<char>>(())
        } else {
            Err::<(), Seq<char>>(delete_branch_error(result.output@, force))
        }),
{
    if result.success {
        Ok(())
    } else {
        Err(normalize_delete_branch_error(result.output.as_str(), force))
    }
}

/// Why a worktree could not be added.
pub open spec fn worktree_add_error(raw: Seq<char>, create_branch: bool) -> Seq<char> {
    if mentions(raw, "already checked out"@) || mentions(raw, "already used by worktree"@) {
        "该分支已在其他 worktree 检出，请切换分支或先移除旧 worktree"@
    } else if create_branch && mentions(raw, "already exists"@) && mentions(raw, "branch"@) {
        "分支已存在，请改用“已有分支”模式或更换分支名"@
    } else if mentions(raw, "already exists"@) {
        "目标目录已存在，无法创建 worktree"@
    } else if mentions(raw, "not a git repository"@) {
        not_a_repo()
    } else if mentions(raw, "invalid reference"@) || mentions(raw, "unknown revision"@)
        || mentions(raw, "not a valid object name"@) || mentions(raw, "pathspec"@) {
        "分支不存在或不可用，请检查分支名称"@
    } else {
        raw
    }
}

pub fn normalize_worktree_add_error(raw: &str, create_branch: bool) -> (r: String)
    ensures
        r@ == worktree_add_error(raw@, create_branch),
{
    let chars = chars_of(raw);
    let lower_chars = to_ascii_lowercase(chars.as_slice());
    let lower = lower_chars.as_slice();
    if contains_text(lower, "already checked out") || contains_text(
        lower,
        "already used by worktree",
    ) {
        return text_of("该分支已在其他 worktree 检出，请切换分支或先移除旧 worktree");
    }
    if create_branch && contains_text(lower, "already exists") && contains_text(lower, "branch") {
        return text_of("分支已存在，请改用“已有分支”模式或更换分支名");
    }
    if contains_text(lower, "already exists") {
        return text_of("目标目录已存在，无法创建 worktree");
    }
    if contains_text(lower, "not a git repository") {
        return text_of("不是 Git 仓库");
    }
    if contains_text(lower, "invalid reference") || contains_text(lower, "unknown revision")
        || contains_text(lower, "not a valid object name") || contains_text(lower, "pathspec") {
        return text_of("分支不存在或不可用，请检查分支名称");
    }
    string_of(chars.as_slice())
}

/// Whether git said that a worktree is dirty.
pub open spec fn says_dirty(raw: Seq<char>) -> bool {
    mentions(raw, "contains modified or untracked files"@) || mentions(
        raw,
        "cannot remove a dirty worktree"@,
    ) || (mentions(raw, "dirty"@) && mentions(raw, "worktree"@))
}

/// Why a worktree could not be removed.
pub open spec fn worktree_remove_error(raw: Seq<char>, force: bool) -> Seq<char> {
    if mentions(raw, "not a git repository"@) {
        not_a_repo()
    } else if mentions(raw, "not a working tree"@) {
        "worktree 不存在或已移除"@
    } else if says_dirty(raw) {
        if force {
            "强制删除失败：worktree 可能被进程占用或被锁定，请先关闭相关终端/编辑器后重试"@
        } else {
            "该 worktree 存在未提交修改，无法删除。请先提交/清理，或使用“强制删除”"@
        }
    } else if mentions(raw, "locked"@) && mentions(raw, "worktree"@) {
        "worktree 已锁定，无法删除。可先执行 git worktree unlock 后重试"@
    } else {
        raw
    }
}

pub fn normalize_worktree_remove_error(raw: &str, force: bool) -> (r: String)
    ensures
        r@ == worktree_remove_error(raw@, force),
{
    let chars = chars_of(raw);
    let lower_chars = to_ascii_lowercase(chars.as_slice());
    let lower = lower_chars.as_slice();
    if contains_text(lower, "not a git repository") {
        return text_of("不是 Git 仓库");
    }
    if contains_text(lower, "not a working tree") {
        return text_of("worktree 不存在或已移除");
    }
    if contains_text(lower, "contains modified or untracked files") || contains_text(
        lower,
        "cannot remove a dirty worktree",
    ) || (contains_text(lower, "dirty") && contains_text(lower, "worktree")) {
        if force {
            return text_of(
                "强制删除失败：worktree 可能被进程占用或被锁定，请先关闭相关终端/编辑器后重试",
            );
        }
        return text_of("该 worktree 存在未提交修改，无法删除。请先提交/清理，或使用“强制删除”");
    }
    if contains_text(lower, "locked") && contains_text(lower, "worktree") {
        return text_of("worktree 已锁定，无法删除。可先执行 git worktree unlock 后重试");
    }
    string_of(chars.as_slice())
}

/// Whether `git show` failed because the object is not there.
pub open spec fn says_not_found(stderr: Seq<char>) -> bool {
    mentions(stderr, "does not exist"@) || mentions(stderr, "not in the index"@) || mentions(
        stderr,
        "exists on disk, but not in the index"@,
    ) || mentions(stderr, "invalid object name"@) || mentions(stderr, "ambiguous argument"@)
}

pub fn is_git_show_not_found(stderr: &str) -> (r: bool)
    ensures
        r == says_not_found(stderr@),
{
    let chars = chars_of(stderr);
    let lower_chars = to_ascii_lowercase(chars.as_slice());
    let lower = lower_chars.as_slice();
    contains_text(lower, "does not exist") || contains_text(lower, "not in the index")
        || contains_text(lower, "exists on disk, but not in the index") || contains_text(
        lower,
        "invalid object name",
    ) || contains_text(lower, "ambiguous argument")
}

/// Whether a zero byte stands among the first 8000 bytes.
pub open spec fn has_early_zero(bytes: Seq<u8>) -> bool {
    exists|i: int| 0 <= i < bytes.len() && i < 8000 && bytes[i] == 0
}

pub fn looks_binary(bytes: &[u8]) -> (r: bool)
    ensures
        r == has_early_zero(bytes@),
{
    let mut i: usize = 0;
    while i < bytes.len() && i < 8000
        invariant
            i <= bytes.len(),
            i <= 8000,
            forall|k: int| 0 <= k < i ==> bytes@[k] != 0,
        decreases bytes.len() - i,
    {
        if bytes[i] == 0 {
            return true;
        }
        i += 1;
    }
    false
}

/// At most `max_bytes` bytes from the front, and whether bytes were cut.
pub fn truncate_bytes(bytes: Vec<u8>, max_bytes: usize) -> (r: (Vec<u8>, bool))
    ensures
        r.1 == (bytes@.len() > max_bytes),
        r.0@ == (if bytes@.len() > max_bytes {
            bytes@.subrange(0, max_bytes as int)
        } else {
            bytes@
        }),
{
    let mut bytes = bytes;
    if bytes.len() <= max_bytes {
        return (bytes, false);
    }
    bytes.truncate(max_bytes);
    (bytes, true)
}

/// The text of bytes that may not be well-formed UTF-8: every stretch that
/// is ill-formed, and a character cut short at the end, becomes U+FFFD.
pub open spec fn lossy_string(bytes: Seq<u8>) -> Seq<char> {
    if lossy_rest(bytes).len() > 0 {
        lossy_text(bytes).push(replacement())
    } else {
        lossy_text(bytes)
    }
}

pub fn string_from_utf8_lossy(bytes: Vec<u8>) -> (r: String)
    ensures
        r@ == lossy_string(bytes@),
{
    let mut rest = bytes;
    let mut text = drain_utf8_bytes(&mut rest);
    if rest.len() > 0 {
        text.push('\u{FFFD}');
    }
    text
}

pub open spec fn binary_refused() -> Seq<char> {
    "检测到二进制文件，无法以文本对比展示。"@
}

pub open spec fn opt_bytes(o: Option<Vec<u8>>) -> Option<Seq<u8>> {
    match o {
        Some(b) => Some(b@),
        None => None,
    }
}

/// The text of one side of a comparison: empty where the side does not
/// exist, refused where it looks binary.
pub open spec fn side_text(bytes: Option<Seq<u8>>) -> Result<Seq<char>, Seq<char>> {
    match bytes {
        None => Ok(seq![]),
        Some(b) => if has_early_zero(b) {
            Err(binary_refused())
        } else {
            Ok(lossy_string(b))
        },
    }
}

pub fn bytes_to_text(bytes: Option<Vec<u8>>) -> (r: Result<String, String>)
    ensures
        text_result(r) == side_text(opt_bytes(bytes)),
{
    match bytes {
        None => Ok(String::new()),
        Some(b) => {
            if looks_binary(b.as_slice()) {
                return Err(text_of("检测到二进制文件，无法以文本对比展示。"));
            }
            Ok(string_from_utf8_lossy(b))
        },
    }
}

/// The status that one letter of a porcelain record stands for; a letter
/// that is not known counts as a modification.
pub fn map_git_status_char(value: char) -> (r: GitFileStatus)
    ensures
        r == (if value == 'A' {
            GitFileStatus::Added
        } else if value == 'D' {
            GitFileStatus::Deleted
        } else if value == 'R' {
            GitFileStatus::Renamed
        } else if value == 'C' {
            GitFileStatus::Copied
        } else if value == '?' {
            GitFileStatus::Untracked
        } else {
            GitFileStatus::Modified
        }),
{
    if value == 'A' {
        GitFileStatus::Added
    } else if value == 'D' {
        GitFileStatus::Deleted
    } else if value == 'R' {
        GitFileStatus::Renamed
    } else if value == 'C' {
        GitFileStatus::Copied
    } else if value == '?' {
        GitFileStatus::Untracked
    } else {
        GitFileStatus::Modified
    }
}

/// Both sides of a comparison as texts; the original side is read first.
pub fn diff_contents(
    original: Option<Vec<u8>>,
    original_truncated: bool,
    modified: Option<Vec<u8>>,
    modified_truncated: bool,
) -> (r: Result<GitDiffContents, String>)
    ensures
        match r {
            Ok(d) => side_text(opt_bytes(original)) == Ok::<Seq<char>, Seq<char>>(d.original@)
                && side_text(opt_bytes(modified)) == Ok::<Seq<char>, Seq<char>>(d.modified@)
                && d.original_truncated == original_truncated && d.modified_truncated
                == modified_truncated,
            Err(e) => e@ == binary_refused() && (side_text(opt_bytes(original)) is Err
                || side_text(opt_bytes(modified)) is Err),
        },
{
    let original = match bytes_to_text(original) {
        Ok(t) => t,
        Err(e) => {
            return Err(e);
        },
    };
    let modified = match bytes_to_text(modified) {
        Ok(t) => t,
        Err(e) => {
            return Err(e);
        },
    };
    Ok(GitDiffContents { original, modified, original_truncated, modified_truncated })
}

} // verus!
