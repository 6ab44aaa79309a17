//! One-shot invocations of the multiplexer binary: the environment they
//! run in, what their outcome means, and the session options that tie a
//! session to its project.

use crate::command::texts;
use crate::fields::{lines, rows, split_lines};
use crate::manager::TerminalManager;
use crate::replies::{ListedSession, TerminalSessionInfo};
use crate::text::{
    chars_of, contains, contains_text, push_chars, string_of, text_of, trim, trim_slice,
};
use vstd::prelude::*;

verus! {

pub open spec fn opt_text(o: Option<String>) -> Option<Seq<char>> {
    match o {
        Some(s) => Some(s@),
        None => None,
    }
}

pub open spec fn opt_str(o: Option<&str>) -> Option<Seq<char>> {
    match o {
        Some(s) => Some(s@),
        None => None,
    }
}

/// The environment that the multiplexer is started with.
#[derive(Debug, Clone, PartialEq, Eq)]
pub struct TmuxEnv {
    pub path: String,
    pub shell: String,
    pub home: Option<String>,
    pub lang: String,
    pub lc_all: String,
    pub term: String,
}

pub open spec fn default_path() -> Seq<char> {
    "/usr/local/bin:/usr/bin:/bin:/usr/sbin:/sbin:/opt/homebrew/bin:/opt/local/bin"@
}

/// The search path for the multiplexer: the inherited one where it already
/// names both places that package managers install to, else the default
/// path in front of it. Without an inherited path the default stands for
/// it.
pub open spec fn search_path(inherited: Option<Seq<char>>) -> Seq<char> {
    let current = match inherited {
        Some(p) => p,
        None => default_path(),
    };
    if contains(current, "/opt/homebrew/bin"@) && contains(current, "/usr/local/bin"@) {
        current
    } else {
        default_path() + seq![':'] + current
    }
}

/// A setting of the environment where it is set to more than white space,
/// else the fallback.
pub open spec fn setting_or(value: Option<Seq<char>>, fallback: Seq<char>) -> Seq<char> {
    match value {
        Some(v) => if trim(v).len() > 0 {
            v
        } else {
            fallback
        },
        None => fallback,
    }
}

fn choose_setting(value: Option<&str>, fallback: &str) -> (r: String)
    ensures
        r@ == setting_or(opt_str(value), fallback@),
{
    match value {
        Some(v) => {
            let chars = chars_of(v);
            if trim_slice(chars.as_slice()).len() > 0 {
                string_of(chars.as_slice())
            } else {
                text_of(fallback)
            }
        },
        None => text_of(fallback),
    }
}

/// The environment for the multiplexer, from what the process inherited:
/// its `PATH`, `LANG`, `LC_ALL` and `TERM`, the user's shell and home.
pub fn build_tmux_env(
    inherited_path: Option<&str>,
    shell: String,
    home: Option<String>,
    lang: Option<&str>,
    lc_all: Option<&str>,
    term: Option<&str>,
) -> (env: TmuxEnv)
    ensures
        env.path@ == search_path(opt_str(inherited_path)),
        env.shell == shell,
        env.home == home,
        env.lang@ == setting_or(opt_str(lang), "en_US.UTF-8"@),
        env.lc_all@ == setting_or(opt_str(lc_all), env.lang@),
        env.term@ == setting_or(opt_str(term), "xterm-256color"@),
{
    let current = match inherited_path {
        Some(p) => chars_of(p),
        None => chars_of(
            "/usr/local/bin:/usr/bin:/bin:/usr/sbin:/sbin:/opt/homebrew/bin:/opt/local/bin",
        ),
    };
    let path = if contains_text(current.as_slice(), "/opt/homebrew/bin") && contains_text(
        current.as_slice(),
        "/usr/local/bin",
    ) {
        string_of(current.as_slice())
    } else {
        let mut full = chars_of(
            "/usr/local/bin:/usr/bin:/bin:/usr/sbin:/sbin:/opt/homebrew/bin:/opt/local/bin",
        );
        full.push(':');
        push_chars(&mut full, current.as_slice());
        string_of(full.as_slice())
    };
    let lang = choose_setting(lang, "en_US.UTF-8");
    let lc_all = choose_setting(lc_all, lang.as_str());
    let term = choose_setting(term, "xterm-256color");
    TmuxEnv { path, shell, home, lang, lc_all, term }
}

/// The places where the multiplexer binary is looked for, in this order.
pub open spec fn bin_candidates() -> Seq<Seq<char>> {
    seq![
        "/opt/homebrew/bin/tmux"@,
        "/usr/local/bin/tmux"@,
        "/opt/local/bin/tmux"@,
        "/usr/bin/tmux"@,
    ]
}

pub fn tmux_bin_candidates() -> (r: Vec<String>)
    ensures
        texts(r@) == bin_candidates(),
{
    let mut v: Vec<String> = Vec::new();
    v.push(text_of("/opt/homebrew/bin/tmux"));
    v.push(text_of("/usr/local/bin/tmux"));
    v.push(text_of("/opt/local/bin/tmux"));
    v.push(text_of("/usr/bin/tmux"));
    assert(texts(v@) =~= bin_candidates());
    v
}

/// Index of the first candidate at or after `i` that is a file; the number
/// of answers where none is.
pub open spec fn first_present(present: Seq<bool>, i: int) -> int
    decreases present.len() - i,
{
    if 0 <= i < present.len() && !present[i] {
        first_present(present, i + 1)
    } else {
        i
    }
}

/// The binary to run: the one that the environment names, where that is a
/// file; else the first candidate that is a file; else plain `tmux`, for
/// the search path to find.
pub open spec fn chosen_bin(named: Option<Seq<char>>, present: Seq<bool>) -> Seq<char> {
    match named {
        Some(path) => path,
        None => {
            let i = first_present(present, 0);
            if i < present.len() && i < 4 {
                bin_candidates()[i]
            } else {
                "tmux"@
            }
        },
    }
}

/// Picks the binary. `named_file` is the path that the environment names,
/// if it names a file; `present[i]` says whether candidate `i` is a file.
pub fn resolve_tmux_bin(named_file: Option<String>, present: &[bool]) -> (r: String)
    ensures
        r@ == chosen_bin(opt_text(named_file), present@),
{
    if let Some(path) = named_file {
        return path;
    }
    let mut i: usize = 0;
    while i < present.len() && !present[i]
        invariant
            i <= present.len(),
            first_present(present@, 0) == first_present(present@, i as int),
        decreases present.len() - i,
    {
        i += 1;
    }
    if i < present.len() && i < 4 {
        let candidates = tmux_bin_candidates();
        assert(texts(candidates@).len() == 4);
        assert(texts(candidates@)[i as int] == candidates@[i as int]@);
        text_of(candidates[i].as_str())
    } else {
        text_of("tmux")
    }
}

pub open spec fn failure_prefix() -> Seq<char> {
    "tmux 命令执行失败: "@
}

/// What a finished invocation comes to: its output where it succeeded, else
/// a failure that carries what it wrote to standard error.
pub fn run_tmux_command(success: bool, stdout: String, stderr: &str) -> (r: Result<String, String>)
    ensures
        match r {
            Ok(out) => success && out == stdout,
            Err(e) => !success && e@ == failure_prefix() + stderr@,
        },
{
    if !success {
        let mut message = chars_of("tmux 命令执行失败: ");
        let detail = chars_of(stderr);
        push_chars(&mut message, detail.as_slice());
        return Err(string_of(message.as_slice()));
    }
    Ok(stdout)
}

/// The same for an invocation whose output does not matter.
pub fn run_tmux_status(success: bool, stderr: &str) -> (r: Result<(), String>)
    ensures
        match r {
            Ok(_) => success,
            Err(e) => !success && e@ == failure_prefix() + stderr@,
        },
{
    if !success {
        let mut message = chars_of("tmux 命令执行失败: ");
        let detail = chars_of(stderr);
        push_chars(&mut message, detail.as_slice());
        return Err(string_of(message.as_slice()));
    }
    Ok(())
}

/// The failure of an invocation that could not be started at all.
pub fn launch_failure(detail: &str) -> (r: String)
    ensures
        r@ == failure_prefix() + detail@,
{
    let mut message = chars_of("tmux 命令执行失败: ");
    let text = chars_of(detail);
    push_chars(&mut message, text.as_slice());
    string_of(message.as_slice())
}

fn args5(a: &str, b: &str, c: &str, d: &str, e: &str) -> (r: Vec<String>)
    ensures
        texts(r@) == seq![a@, b@, c@, d@, e@],
{
    let mut v: Vec<String> = Vec::new();
    v.push(text_of(a));
    v.push(text_of(b));
    v.push(text_of(c));
    v.push(text_of(d));
    v.push(text_of(e));
    assert(texts(v@) =~= seq![a@, b@, c@, d@, e@]);
    v
}

/// The arguments that print the value of a session option.
pub fn show_option(session_id: &str, option: &str) -> (r: Vec<String>)
    ensures
        texts(r@) == seq!["show-options"@, "-q"@, "-v"@, "-t"@, session_id@, option@],
{
    let mut args = args5("show-options", "-q", "-v", "-t", session_id);
    let ghost before = texts(args@);
    args.push(text_of(option));
    assert(texts(args@) =~= before.push(option@));
    args
}

/// `s` trimmed, where that leaves anything.
pub open spec fn trimmed_value(s: Seq<char>) -> Option<Seq<char>> {
    if trim(s).len() > 0 {
        Some(trim(s))
    } else {
        None
    }
}

/// The value of a session option, from what `show-options` printed, if the
/// invocation succeeded at all: the output trimmed, none where nothing is
/// left.
pub fn read_tmux_session_option(output: Option<&str>) -> (r: Option<String>)
    ensures
        opt_text(r) == (match output {
            Some(text) => trimmed_value(text@),
            None => None,
        }),
{
    match output {
        None => None,
        Some(text) => {
            let chars = chars_of(text);
            let trimmed = trim_slice(chars.as_slice());
            if trimmed.len() == 0 {
                None
            } else {
                Some(string_of(trimmed))
            }
        },
    }
}

/// The arguments that set a session option to `value`, trimmed; none where
/// the value is blank, for then nothing is set.
pub fn set_tmux_session_option(session_id: &str, option: &str, value: &str) -> (r: Option<
    Vec<String>,
>)
    ensures
        match r {
            Some(args) => trimmed_value(value@) is Some && texts(args@) == seq![
                "set-option"@,
                "-t"@,
                session_id@,
                option@,
                trim(value@),
            ],
            None => trimmed_value(value@) is None,
        },
{
    let chars = chars_of(value);
    let trimmed = trim_slice(chars.as_slice());
    if trimmed.len() == 0 {
        return None;
    }
    let value_text = string_of(trimmed);
    Some(args5("set-option", "-t", session_id, option, value_text.as_str()))
}

/// The invocations that record a session's project on the session: its
/// identifier first, then its path; a blank value is skipped.
pub fn set_tmux_session_metadata(session_id: &str, project_id: &str, project_path: &str) -> (r:
    Vec<Vec<String>>)
    ensures
        r.len() == (if trimmed_value(project_id@) is Some {
            1int
        } else {
            0int
        }) + (if trimmed_value(project_path@) is Some {
            1int
        } else {
            0int
        }),
        trimmed_value(project_id@) is Some ==> texts(r@[0]@) == seq![
            "set-option"@,
            "-t"@,
            session_id@,
            "@devhaven_project_id"@,
            trim(project_id@),
        ],
        trimmed_value(project_path@) is Some ==> texts(r@[r.len() - 1]@) == seq![
            "set-option"@,
            "-t"@,
            session_id@,
            "@devhaven_project_path"@,
            trim(project_path@),
        ],
{
    let mut out: Vec<Vec<String>> = Vec::new();
    if let Some(args) = set_tmux_session_option(session_id, "@devhaven_project_id", project_id) {
        out.push(args);
    }
    if let Some(args) = set_tmux_session_option(
        session_id,
        "@devhaven_project_path",
        project_path,
    ) {
        out.push(args);
    }
    out
}

/// The invocations that give a session its scrollback limit and its pane
/// border styles, in the order in which they run.
pub fn apply_tmux_pane_style(session_id: &str) -> (r: Vec<Vec<String>>)
    ensures
        r.len() == 3,
        texts(r@[0]@) == seq![
            "set-option"@,
            "-t"@,
            session_id@,
            "history-limit"@,
            "200000"@,
        ],
        texts(r@[1]@) == seq![
            "set-option"@,
            "-t"@,
            session_id@,
            "pane-border-style"@,
            "fg=#586e75,bg=default"@,
        ],
        texts(r@[2]@) == seq![
            "set-option"@,
            "-t"@,
            session_id@,
            "pane-active-border-style"@,
            "fg=#268bd2,bg=default"@,
        ],
{
    let mut out: Vec<Vec<String>> = Vec::new();
    out.push(args5("set-option", "-t", session_id, "history-limit", "200000"));
    out.push(args5("set-option", "-t", session_id, "pane-border-style", "fg=#586e75,bg=default"));
    out.push(
        args5("set-option", "-t", session_id, "pane-active-border-style", "fg=#268bd2,bg=default"),
    );
    out
}

/// The arguments that print the current directory of each pane of a
/// session.
pub fn list_pane_paths(session_id: &str) -> (r: Vec<String>)
    ensures
        texts(r@) == seq!["list-panes"@, "-t"@, session_id@, "-F"@, "#{pane_current_path}"@],
{
    args5("list-panes", "-t", session_id, "-F", "#{pane_current_path}")
}

/// The first of the rows that is not blank, trimmed.
pub open spec fn first_filled(rows: Seq<Seq<char>>) -> Option<Seq<char>>
    decreases rows.len(),
{
    if rows.len() == 0 {
        None
    } else if trim(rows[0]).len() > 0 {
        Some(trim(rows[0]))
    } else {
        first_filled(rows.drop_first())
    }
}

/// The path of a session's project: the path recorded on the session where
/// there is one, else the first directory that its panes report.
pub open spec fn session_path(recorded: Option<Seq<char>>, pane_paths: Option<Seq<char>>) -> Option<
    Seq<char>,
> {
    match recorded {
        Some(path) => Some(path),
        None => match pane_paths {
            Some(output) => first_filled(lines(output)),
            None => None,
        },
    }
}

pub fn resolve_tmux_session_path(recorded: Option<String>, pane_paths: Option<&str>) -> (r:
    Option<String>)
    ensures
        opt_text(r) == session_path(opt_text(recorded), opt_str(pane_paths)),
{
    if let Some(path) = recorded {
        return Some(path);
    }
    assert(recorded is None);
    let output = match pane_paths {
        Some(output) => output,
        None => {
            return None;
        },
    };
    let chars = chars_of(output);
    let all = split_lines(chars.as_slice());
    let ghost wanted = session_path(opt_text(recorded), opt_str(pane_paths));
    let mut i: usize = 0;
    assert(rows(all@).skip(0) =~= rows(all@));
    while i < all.len()
        invariant
            i <= all.len(),
            wanted == first_filled(rows(all@)),
            wanted == session_path(opt_text(recorded), opt_str(pane_paths)),
            first_filled(rows(all@)) == first_filled(rows(all@).skip(i as int)),
        decreases all.len() - i,
    {
        let ghost rest = rows(all@).skip(i as int);
        assert(rest[0] == all@[i as int]@);
        assert(rest.drop_first() =~= rows(all@).skip(i + 1));
        let trimmed = trim_slice(all[i].as_slice());
        if trimmed.len() > 0 {
            return Some(string_of(trimmed));
        }
        i += 1;
    }
    assert(rows(all@).skip(all@.len() as int) =~= seq![]);
    None
}

/// A listed session with its project: the identifier recorded on the
/// session, or the session's own name where none is recorded; the project's
/// path, or nothing where none can be found.
pub fn session_info(
    listed: ListedSession,
    project_id: Option<String>,
    project_path: Option<String>,
) -> (info: TerminalSessionInfo)
    ensures
        info.id == listed.id,
        info.created_at == listed.created_at,
        info.project_id@ == (match project_id {
            Some(p) => p@,
            None => listed.id@,
        }),
        info.project_path@ == (match project_path {
            Some(p) => p@,
            None => Seq::<char>::empty(),
        }),
{
    let project_id = match project_id {
        Some(p) => p,
        None => text_of(listed.id.as_str()),
    };
    let project_path = match project_path {
        Some(p) => p,
        None => String::new(),
    };
    TerminalSessionInfo {
        id: listed.id,
        project_id,
        project_path,
        created_at: listed.created_at,
    }
}

/// How a project comes to its session.
#[derive(Debug, Clone, Copy, PartialEq, Eq)]
pub enum SessionStart {
    /// The session exists: attach to it.
    Attach,
    /// A session under the project's earlier name exists: rename it.
    RenameLegacy,
    /// Neither exists: create the session.
    Create,
}

/// Decides how a project comes to its session. The earlier name matters
/// only where the session does not exist under the present one.
pub fn plan_session(exists: bool, legacy_exists: bool) -> (r: SessionStart)
    ensures
        r == (if exists {
            SessionStart::Attach
        } else if legacy_exists {
            SessionStart::RenameLegacy
        } else {
            SessionStart::Create
        }),
{
    if exists {
        SessionStart::Attach
    } else if legacy_exists {
        SessionStart::RenameLegacy
    } else {
        SessionStart::Create
    }
}

/// The user's shell: the one that the environment names, where that
/// exists; else the one of the user's account, where that exists; else the
/// first that exists of `/bin/zsh` and `/bin/bash`; else `/bin/sh`.
pub fn get_user_shell(
    env_shell: Option<String>,
    env_shell_exists: bool,
    account_shell: Option<String>,
    account_shell_exists: bool,
    zsh_exists: bool,
    bash_exists: bool,
) -> (r: String)
    ensures
        r@ == (if env_shell is Some && env_shell->0@.len() > 0 && env_shell_exists {
            env_shell->0@
        } else if account_shell is Some && account_shell_exists {
            account_shell->0@
        } else if zsh_exists {
            "/bin/zsh"@
        } else if bash_exists {
            "/bin/bash"@
        } else {
            "/bin/sh"@
        }),
{
    if let Some(shell) = env_shell {
        if !shell.as_str().is_empty() && env_shell_exists {
            return shell;
        }
    }
    if let Some(shell) = account_shell {
        if account_shell_exists {
            return shell;
        }
    }
    if zsh_exists {
        text_of("/bin/zsh")
    } else if bash_exists {
        text_of("/bin/bash")
    } else {
        text_of("/bin/sh")
    }
}

/// The user's home directory: the one that the environment names, where it
/// names one; else the one of the user's account.
pub fn get_user_home(env_home: Option<String>, account_home: Option<String>) -> (r: Option<String>)
    ensures
        r == (if env_home is Some && env_home->0@.len() > 0 {
            env_home
        } else {
            account_home
        }),
{
    if let Some(home) = env_home {
        if !home.as_str().is_empty() {
            return Some(home);
        }
    }
    account_home
}

/// The failure to write a command to the control channel.
pub fn write_failure(detail: &str) -> (r: String)
    ensures
        r@ == "控制命令写入失败: "@ + detail@,
{
    let mut message = chars_of("控制命令写入失败: ");
    let text = chars_of(detail);
    push_chars(&mut message, text.as_slice());
    string_of(message.as_slice())
}

/// The failure to hand a command to a worker that is gone.
pub fn queue_closed() -> (r: String)
    ensures
        r@ == "控制命令队列已关闭"@,
{
    text_of("控制命令队列已关闭")
}

/// The failures of opening a control channel, each with what the system
/// said.
pub fn spawn_failure(stage: SpawnStage, detail: &str) -> (r: String)
    ensures
        r@ == (match stage {
            SpawnStage::OpenPty => "创建 tmux 控制终端失败: "@,
            SpawnStage::Spawn => "启动 tmux 控制模式失败: "@,
            SpawnStage::Reader => "读取 tmux 输出失败: "@,
            SpawnStage::Writer => "获取 tmux 写入器失败: "@,
        }) + detail@,
{
    let mut message = match stage {
        SpawnStage::OpenPty => chars_of("创建 tmux 控制终端失败: "),
        SpawnStage::Spawn => chars_of("启动 tmux 控制模式失败: "),
        SpawnStage::Reader => chars_of("读取 tmux 输出失败: "),
        SpawnStage::Writer => chars_of("获取 tmux 写入器失败: "),
    };
    let text = chars_of(detail);
    push_chars(&mut message, text.as_slice());
    string_of(message.as_slice())
}

/// Where the opening of a control channel can fail.
#[derive(Debug, Clone, Copy, PartialEq, Eq)]
pub enum SpawnStage {
    OpenPty,
    Spawn,
    Reader,
    Writer,
}

impl TerminalManager {
    /// The record of a session that was just created for, or attached to, a
    /// project.
    pub fn create_session(
        &self,
        session_name: String,
        project_id: &str,
        project_path: &str,
        now_ms: i64,
    ) -> (info: TerminalSessionInfo)
        ensures
            info.id == session_name,
            info.project_id@ == project_id@,
            info.project_path@ == project_path@,
            info.created_at == now_ms,
    {
        TerminalSessionInfo {
            id: session_name,
            project_id: text_of(project_id),
            project_path: text_of(project_path),
            created_at: now_ms,
        }
    }

    /// The record of a session that was created, or attached to, just now.
    pub fn create_session_now(
        &self,
        session_name: String,
        project_id: &str,
        project_path: &str,
    ) -> (info: TerminalSessionInfo)
        ensures
            info.id == session_name,
            info.project_id@ == project_id@,
            info.project_path@ == project_path@,
    {
        let now = crate::worktree_init::now_millis();
        self.create_session(session_name, project_id, project_path, now)
    }
}

} // verus!
