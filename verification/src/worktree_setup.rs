//! Preparing the environment of a new worktree: the project's setup
//! directory is copied over, and its setup commands are run.

use crate::fields::{number_chars, number_text};
use crate::text::{chars_of, push_chars, string_of, text_of, trim, trim_slice};
use vstd::prelude::*;

verus! {

pub const PROJECT_SETUP_DIR: &'static str = ".devhaven";

pub const SETUP_CONFIG_FILE: &'static str = "config.json";

/// The most that is kept of a command's output, in characters.
pub const MAX_OUTPUT_CHARS: usize = 4000;

pub open spec fn opt_text(o: Option<String>) -> Option<Seq<char>> {
    match o {
        Some(s) => Some(s@),
        None => None,
    }
}

pub open spec fn texts(items: Seq<String>) -> Seq<Seq<char>> {
    Seq::new(items.len(), |i: int| items[i]@)
}

pub open spec fn copy_failed() -> Seq<char> {
    "复制 .devhaven 目录失败："@
}

/// The warning that the preparation of a worktree leaves behind, if any:
/// the failure to copy the setup directory, then the failure of the setup
/// commands, on two lines where both failed.
pub open spec fn setup_warning(copy: Option<Seq<char>>, setup: Option<Seq<char>>) -> Option<
    Seq<char>,
> {
    match (copy, setup) {
        (None, None) => None,
        (Some(c), None) => Some(copy_failed() + c),
        (None, Some(s)) => Some(s),
        (Some(c), Some(s)) => Some(copy_failed() + c + seq!['\n'] + s),
    }
}

pub open spec fn failure_of(r: Result<(), String>) -> Option<Seq<char>> {
    match r {
        Ok(_) => None,
        Err(e) => Some(e@),
    }
}

/// What the preparation of a worktree comes to, given how copying the
/// setup directory and running the setup commands went. Neither failure
/// stops the worktree from being created: both only leave a warning.
pub fn prepare_worktree_environment(copy: Result<(), String>, setup: Result<(), String>) -> (r:
    Option<String>)
    ensures
        opt_text(r) == setup_warning(failure_of(copy), failure_of(setup)),
{
    let mut warning: Vec<char> = Vec::new();
    let mut any = false;
    if let Err(error) = copy {
        let head = chars_of("复制 .devhaven 目录失败：");
        push_chars(&mut warning, head.as_slice());
        let detail = chars_of(error.as_str());
        push_chars(&mut warning, detail.as_slice());
        any = true;
    }
    if let Err(error) = setup {
        if any {
            warning.push('\n');
        }
        let detail = chars_of(error.as_str());
        push_chars(&mut warning, detail.as_slice());
        any = true;
    }
    if !any {
        return None;
    }
    assert(Some(warning@) =~= setup_warning(failure_of(copy), failure_of(setup)));
    Some(string_of(warning.as_slice()))
}

/// What is to be done about the setup directory.
#[derive(Debug, Clone, Copy, PartialEq, Eq)]
pub enum SetupCopy {
    /// Nothing: the project has none, or the worktree has one already.
    Skip,
    /// The project's is copied to the worktree.
    Copy,
}

pub open spec fn unit_plan(r: Result<SetupCopy, String>) -> Result<SetupCopy, Seq<char>> {
    match r {
        Ok(p) => Ok(p),
        Err(e) => Err(e@),
    }
}

/// Decides whether the setup directory is copied: only where the project
/// has one, which must be a directory, and the worktree has none.
pub fn copy_setup_directory(source_exists: bool, source_is_dir: bool, target_exists: bool) -> (r:
    Result<SetupCopy, String>)
    ensures
        unit_plan(r) == (if !source_exists {
            Ok::<SetupCopy, Seq<char>>(SetupCopy::Skip)
        } else if !source_is_dir {
            Err("源 .devhaven 不是目录"@)
        } else if target_exists {
            Ok(SetupCopy::Skip)
        } else {
            Ok(SetupCopy::Copy)
        }),
{
    if !source_exists {
        return Ok(SetupCopy::Skip);
    }
    if !source_is_dir {
        return Err(text_of("源 .devhaven 不是目录"));
    }
    if target_exists {
        return Ok(SetupCopy::Skip);
    }
    Ok(SetupCopy::Copy)
}

/// The failure to copy the setup directory, with both ends named.
pub fn copy_failure(source: &str, target: &str, error: &str) -> (r: String)
    ensures
        r@ == source@ + " -> "@ + target@ + " 复制失败："@ + error@,
{
    let mut out = chars_of(source);
    let arrow = chars_of(" -> ");
    push_chars(&mut out, arrow.as_slice());
    let target_chars = chars_of(target);
    push_chars(&mut out, target_chars.as_slice());
    let middle = chars_of(" 复制失败：");
    push_chars(&mut out, middle.as_slice());
    let detail = chars_of(error);
    push_chars(&mut out, detail.as_slice());
    string_of(out.as_slice())
}

/// The commands among `listed`, trimmed, without the blank ones.
pub open spec fn setup_commands(listed: Seq<Seq<char>>) -> Seq<Seq<char>>
    decreases listed.len(),
{
    if listed.len() == 0 {
        seq![]
    } else if trim(listed.last()).len() == 0 {
        setup_commands(listed.drop_last())
    } else {
        setup_commands(listed.drop_last()).push(trim(listed.last()))
    }
}

/// The setup commands of a project, from the list that its configuration
/// holds.
pub fn load_setup_commands(listed: &Vec<String>) -> (r: Vec<String>)
    ensures
        texts(r@) == setup_commands(texts(listed@)),
{
    let mut out: Vec<String> = Vec::new();
    let mut i: usize = 0;
    assert(texts(out@) =~= setup_commands(texts(listed@).subrange(0, 0)));
    while i < listed.len()
        invariant
            i <= listed.len(),
            texts(out@) == setup_commands(texts(listed@).subrange(0, i as int)),
        decreases listed.len() - i,
    {
        let ghost after = texts(listed@).subrange(0, i + 1);
        assert(after.drop_last() =~= texts(listed@).subrange(0, i as int));
        assert(after.last() == listed@[i as int]@);
        let chars = chars_of(listed[i].as_str());
        let trimmed = trim_slice(chars.as_slice());
        if trimmed.len() > 0 {
            let ghost before = texts(out@);
            out.push(string_of(trimmed));
            assert(texts(out@) =~= before.push(trimmed@));
        }
        i += 1;
    }
    assert(texts(listed@).subrange(0, listed@.len() as int) =~= texts(listed@));
    out
}

/// The failure to read or to understand the configuration.
pub fn config_failure(reading: bool, config_path: &str, error: &str) -> (r: String)
    ensures
        r@ == (if reading {
            "读取 setup 配置失败（"@
        } else {
            "解析 setup 配置失败（"@
        }) + config_path@ + "）："@ + error@,
{
    let mut out = if reading {
        chars_of("读取 setup 配置失败（")
    } else {
        chars_of("解析 setup 配置失败（")
    };
    let path = chars_of(config_path);
    push_chars(&mut out, path.as_slice());
    let middle = chars_of("）：");
    push_chars(&mut out, middle.as_slice());
    let detail = chars_of(error);
    push_chars(&mut out, detail.as_slice());
    string_of(out.as_slice())
}

/// What a command wrote, as it is reported: the streams that are not
/// blank, each under its name.
pub open spec fn combined_output(stdout: Seq<char>, stderr: Seq<char>) -> Seq<char> {
    let out = trim(stdout);
    let err = trim(stderr);
    if out.len() == 0 && err.len() == 0 {
        "命令无输出"@
    } else if err.len() == 0 {
        "stdout:\n"@ + out
    } else if out.len() == 0 {
        "stderr:\n"@ + err
    } else {
        "stdout:\n"@ + out + "\n\nstderr:\n"@ + err
    }
}

/// The report cut to `MAX_OUTPUT_CHARS` characters, with a note where it
/// was cut.
pub open spec fn summarized(stdout: Seq<char>, stderr: Seq<char>) -> Seq<char> {
    let combined = combined_output(stdout, stderr);
    if combined.len() <= MAX_OUTPUT_CHARS {
        combined
    } else {
        combined.subrange(0, MAX_OUTPUT_CHARS as int) + "\n...(输出已截断)"@
    }
}

pub fn summarize_command_output(stdout: &str, stderr: &str) -> (r: String)
    ensures
        r@ == summarized(stdout@, stderr@),
{
    let out_chars = chars_of(stdout);
    let err_chars = chars_of(stderr);
    let out = trim_slice(out_chars.as_slice());
    let err = trim_slice(err_chars.as_slice());
    let mut combined: Vec<char> = Vec::new();
    if out.len() == 0 && err.len() == 0 {
        combined = chars_of("命令无输出");
    } else if err.len() == 0 {
        combined = chars_of("stdout:\n");
        push_chars(&mut combined, out);
    } else if out.len() == 0 {
        combined = chars_of("stderr:\n");
        push_chars(&mut combined, err);
    } else {
        combined = chars_of("stdout:\n");
        push_chars(&mut combined, out);
        let middle = chars_of("\n\nstderr:\n");
        push_chars(&mut combined, middle.as_slice());
        push_chars(&mut combined, err);
    }
    assert(combined@ =~= combined_output(stdout@, stderr@));
    if combined.len() <= MAX_OUTPUT_CHARS {
        return string_of(combined.as_slice());
    }
    let mut cut = crate::fields::to_vec(&combined.as_slice()[0..MAX_OUTPUT_CHARS]);
    let note = chars_of("\n...(输出已截断)");
    push_chars(&mut cut, note.as_slice());
    string_of(cut.as_slice())
}

/// The exit code of a command as it is reported.
pub open spec fn status_text(code: Option<i32>) -> Seq<char> {
    match code {
        Some(c) => number_text(c as int),
        None => "unknown"@,
    }
}

/// The failure of a setup command.
pub open spec fn command_failure(
    command: Seq<char>,
    code: Option<i32>,
    stdout: Seq<char>,
    stderr: Seq<char>,
) -> Seq<char> {
    "环境初始化命令执行失败：\n$ "@ + command + "\n退出码："@ + status_text(code) + seq!['\n']
        + summarized(stdout, stderr)
}

/// What one setup command left behind.
#[derive(Debug, Clone, PartialEq, Eq)]
pub struct SetupOutput {
    pub success: bool,
    pub code: Option<i32>,
    pub stdout: String,
    pub stderr: String,
}

/// What running one setup command comes to: the commands after a failed
/// one are not run.
pub fn setup_command_status(command: &str, output: &SetupOutput) -> (r: Result<(), String>)
    ensures
        match r {
            Ok(_) => output.success,
            Err(e) => !output.success && e@ == command_failure(
                command@,
                output.code,
                output.stdout@,
                output.stderr@,
            ),
        },
{
    if output.success {
        return Ok(());
    }
    let mut message = chars_of("环境初始化命令执行失败：\n$ ");
    let command_chars = chars_of(command);
    push_chars(&mut message, command_chars.as_slice());
    let code_head = chars_of("\n退出码：");
    push_chars(&mut message, code_head.as_slice());
    let status = match output.code {
        Some(c) => number_chars(c as i64),
        None => chars_of("unknown"),
    };
    push_chars(&mut message, status.as_slice());
    message.push('\n');
    let summary = summarize_command_output(output.stdout.as_str(), output.stderr.as_str());
    let summary_chars = chars_of(summary.as_str());
    push_chars(&mut message, summary_chars.as_slice());
    assert(message@ =~= command_failure(
        command@,
        output.code,
        output.stdout@,
        output.stderr@,
    ));
    Err(string_of(message.as_slice()))
}

/// The failure to start a setup command.
pub fn launch_failure(command: &str, error: &str) -> (r: String)
    ensures
        r@ == "执行 setup 命令失败（"@ + command@ + "）："@ + error@,
{
    let mut out = chars_of("执行 setup 命令失败（");
    let command_chars = chars_of(command);
    push_chars(&mut out, command_chars.as_slice());
    let middle = chars_of("）：");
    push_chars(&mut out, middle.as_slice());
    let detail = chars_of(error);
    push_chars(&mut out, detail.as_slice());
    string_of(out.as_slice())
}

/// The shell that runs setup commands, and the argument that comes before
/// the command: the user's shell, or `/bin/zsh` where none is set.
pub fn resolve_shell(env_shell: Option<String>) -> (r: (String, Vec<String>))
    ensures
        r.0@ == (match env_shell {
            Some(s) => s@,
            None => "/bin/zsh"@,
        }),
        texts(r.1@) == seq!["-lc"@],
{
    let shell = match env_shell {
        Some(s) => s,
        None => text_of("/bin/zsh"),
    };
    let mut args: Vec<String> = Vec::new();
    args.push(text_of("-lc"));
    assert(texts(args@) =~= seq!["-lc"@]);
    (shell, args)
}

} // verus!
