//! Session manager: which sessions have a control channel, which channel a
//! command goes to, and the command that each operation stands for.

use crate::command::{command_string, texts, tmux_command_string};
use crate::fields::{digits_of, number_chars, number_text, unsigned_chars};
use crate::manager::TerminalManager;
use crate::text::{chars_of, push_chars, str_eq, string_of, text_of};
use vstd::prelude::*;

verus! {

/// Whether this machine can run the multiplexer workspace at all.
#[derive(Debug, Clone, PartialEq, Eq)]
pub struct TmuxSupportStatus {
    pub supported: bool,
    pub reason: Option<String>,
}

pub open spec fn unsupported_platform() -> Seq<char> {
    "tmux 工作空间仅支持 macOS"@
}

pub open spec fn tmux_not_found() -> Seq<char> {
    "未检测到 tmux，请先安装 tmux"@
}

/// Why the workspace is not supported, if it is not: the platform comes
/// before the binary.
pub open spec fn support_problem(is_macos: bool, tmux_available: bool) -> Option<Seq<char>> {
    if !is_macos {
        Some(unsupported_platform())
    } else if !tmux_available {
        Some(tmux_not_found())
    } else {
        None
    }
}

pub open spec fn opt_text(o: Option<String>) -> Option<Seq<char>> {
    match o {
        Some(s) => Some(s@),
        None => None,
    }
}

/// The support status of a machine, given whether it runs macOS and whether
/// the multiplexer answered `-V`.
pub fn tmux_support_status(is_macos: bool, tmux_available: bool) -> (r: TmuxSupportStatus)
    ensures
        r.supported == (is_macos && tmux_available),
        opt_text(r.reason) == support_problem(is_macos, tmux_available),
{
    if !is_macos {
        return TmuxSupportStatus {
            supported: false,
            reason: Some(text_of("tmux 工作空间仅支持 macOS")),
        };
    }
    if !tmux_available {
        return TmuxSupportStatus {
            supported: false,
            reason: Some(text_of("未检测到 tmux，请先安装 tmux")),
        };
    }
    TmuxSupportStatus { supported: true, reason: None }
}

pub fn ensure_supported(is_macos: bool, tmux_available: bool) -> (r: Result<(), String>)
    ensures
        match r {
            Ok(_) => support_problem(is_macos, tmux_available) is None,
            Err(e) => support_problem(is_macos, tmux_available) == Some(e@),
        },
{
    if !is_macos {
        return Err(text_of("tmux 工作空间仅支持 macOS"));
    }
    if !tmux_available {
        return Err(text_of("未检测到 tmux，请先安装 tmux"));
    }
    Ok(())
}

/// One operation, ready to be carried out: as a command line for a control
/// channel, and as the arguments of a one-shot invocation that does the
/// same where no channel can take it.
#[derive(Debug, Clone, PartialEq, Eq)]
pub struct ControlRequest {
    /// The session whose channel is asked; `None` leaves the choice to the
    /// manager.
    pub session_id: Option<String>,
    /// The arguments of the one-shot invocation.
    pub args: Vec<String>,
    /// The command line for the control channel.
    pub command: String,
}

pub struct RequestView {
    pub session_id: Option<Seq<char>>,
    pub args: Seq<Seq<char>>,
    pub command: Seq<char>,
}

impl View for ControlRequest {
    type V = RequestView;

    open spec fn view(&self) -> RequestView {
        RequestView {
            session_id: opt_text(self.session_id),
            args: texts(self.args@),
            command: self.command@,
        }
    }
}

/// The request that `args` make for the channel of `session_id`.
pub open spec fn request_for(session_id: Option<Seq<char>>, args: Seq<Seq<char>>) -> RequestView {
    RequestView { session_id, args, command: command_string(args) }
}

fn request(session_id: Option<String>, args: Vec<String>) -> (r: ControlRequest)
    ensures
        r@ == request_for(opt_text(session_id), texts(args@)),
{
    let command = tmux_command_string(&args);
    ControlRequest { session_id, args, command }
}

fn push_arg(args: &mut Vec<String>, a: &str)
    ensures
        texts(final(args)@) == texts(old(args)@).push(a@),
{
    args.push(text_of(a));
    assert(texts(args@) =~= texts(old(args)@).push(a@));
}

fn args2(a: &str, b: &str) -> (r: Vec<String>)
    ensures
        texts(r@) == seq![a@, b@],
{
    let mut v: Vec<String> = Vec::new();
    v.push(text_of(a));
    v.push(text_of(b));
    assert(texts(v@) =~= seq![a@, b@]);
    v
}

fn args3(a: &str, b: &str, c: &str) -> (r: Vec<String>)
    ensures
        texts(r@) == seq![a@, b@, c@],
{
    let mut v: Vec<String> = Vec::new();
    v.push(text_of(a));
    v.push(text_of(b));
    v.push(text_of(c));
    assert(texts(v@) =~= seq![a@, b@, c@]);
    v
}

fn args4(a: &str, b: &str, c: &str, d: &str) -> (r: Vec<String>)
    ensures
        texts(r@) == seq![a@, b@, c@, d@],
{
    let mut v: Vec<String> = Vec::new();
    v.push(text_of(a));
    v.push(text_of(b));
    v.push(text_of(c));
    v.push(text_of(d));
    assert(texts(v@) =~= seq![a@, b@, c@, d@]);
    v
}

fn args5(a: &str, b: &str, c: &str, d: &str, e: &str) -> (r: Vec<String>)
    ensures
        texts(r@) == seq![a@, b@, c@, d@, e@],
{
    let mut v: Vec<String> = Vec::new();
    v.push(text_of(a));
    v.push(text_of(b));
    v.push(text_of(c));
    v.push(text_of(d));
    v.push(text_of(e));
    assert(texts(v@) =~= seq![a@, b@, c@, d@, e@]);
    v
}

pub open spec fn unknown_direction() -> Seq<char> {
    "未知的 pane 方向"@
}

/// The flag that names a direction, for the directions there are.
pub open spec fn direction_flag(direction: Seq<char>) -> Option<Seq<char>> {
    if direction == "left"@ {
        Some("-L"@)
    } else if direction == "right"@ {
        Some("-R"@)
    } else if direction == "up"@ {
        Some("-U"@)
    } else if direction == "down"@ {
        Some("-D"@)
    } else {
        None
    }
}

fn flag_for(direction: &str) -> (r: Option<&'static str>)
    ensures
        match r {
            Some(f) => direction_flag(direction@) == Some(f@),
            None => direction_flag(direction@) is None,
        },
{
    if str_eq(direction, "left") {
        Some("-L")
    } else if str_eq(direction, "right") {
        Some("-R")
    } else if str_eq(direction, "up") {
        Some("-U")
    } else if str_eq(direction, "down") {
        Some("-D")
    } else {
        None
    }
}

/// The flag of a split: `-v` for `vertical`, `-h` for anything else.
pub open spec fn split_flag(direction: Seq<char>) -> Seq<char> {
    if direction == "vertical"@ {
        "-v"@
    } else {
        "-h"@
    }
}

/// The target that names the window with the given index in a session.
pub open spec fn window_target(session_id: Seq<char>, window_index: int) -> Seq<char> {
    session_id + seq![':'] + number_text(window_index)
}

/// The size of a client's viewport as the multiplexer reads it.
pub open spec fn client_size(cols: u16, rows: u16) -> Seq<char> {
    digits_of(cols as nat) + seq!['x'] + digits_of(rows as nat)
}

impl TerminalManager {
    /// Splits a pane; the new pane starts in the directory of the old one.
    pub fn split_pane(&self, pane_id: &str, direction: &str) -> (r: ControlRequest)
        ensures
            r@ == request_for(
                None,
                seq![
                    "split-window"@,
                    split_flag(direction@),
                    "-t"@,
                    pane_id@,
                    "-c"@,
                    "#{pane_current_path}"@,
                ],
            ),
    {
        let flag = if str_eq(direction, "vertical") {
            "-v"
        } else {
            "-h"
        };
        let mut args = args4("split-window", flag, "-t", pane_id);
        push_arg(&mut args, "-c");
        push_arg(&mut args, "#{pane_current_path}");
        assert(texts(args@) =~= seq![
            "split-window"@,
            split_flag(direction@),
            "-t"@,
            pane_id@,
            "-c"@,
            "#{pane_current_path}"@,
        ]);
        request(None, args)
    }

    pub fn select_pane(&self, pane_id: &str) -> (r: ControlRequest)
        ensures
            r@ == request_for(None, seq!["select-pane"@, "-t"@, pane_id@]),
    {
        request(None, args3("select-pane", "-t", pane_id))
    }

    /// Moves the selection to the pane in the given direction. A direction
    /// other than `left`, `right`, `up` and `down` is refused.
    pub fn select_pane_direction(&self, pane_id: &str, direction: &str) -> (r: Result<ControlRequest, String>)
        ensures
            match r {
                Ok(req) => direction_flag(direction@) is Some && req@ == request_for(
                    None,
                    seq!["select-pane"@, direction_flag(direction@)->0, "-t"@, pane_id@],
                ),
                Err(e) => direction_flag(direction@) is None && e@ == unknown_direction(),
            },
    {
        match flag_for(direction) {
            Some(flag) => Ok(request(None, args4("select-pane", flag, "-t", pane_id))),
            None => Err(text_of("未知的 pane 方向")),
        }
    }

    /// Resizes a pane by `count` cells in the given direction. A count of 0
    /// asks for nothing; the direction is looked at only after the count.
    pub fn resize_pane(&self, pane_id: &str, direction: &str, count: u16) -> (r: Result<
        Option<ControlRequest>,
        String,
    >)
        ensures
            match r {
                Ok(None) => count == 0,
                Ok(Some(req)) => count != 0 && direction_flag(direction@) is Some && req@
                    == request_for(
                    None,
                    seq![
                        "resize-pane"@,
                        direction_flag(direction@)->0,
                        "-t"@,
                        pane_id@,
                        digits_of(count as nat),
                    ],
                ),
                Err(e) => count != 0 && direction_flag(direction@) is None && e@
                    == unknown_direction(),
            },
    {
        if count == 0 {
            return Ok(None);
        }
        match flag_for(direction) {
            Some(flag) => {
                let amount = string_of(unsigned_chars(count as u64).as_slice());
                Ok(Some(request(None, args5("resize-pane", flag, "-t", pane_id, amount.as_str()))))
            },
            None => Err(text_of("未知的 pane 方向")),
        }
    }

    pub fn kill_pane(&self, pane_id: &str) -> (r: ControlRequest)
        ensures
            r@ == request_for(None, seq!["kill-pane"@, "-t"@, pane_id@]),
    {
        request(None, args3("kill-pane", "-t", pane_id))
    }

    /// Opens a window in a session, starting in `project_path`.
    pub fn new_window(&self, session_id: &str, project_path: &str) -> (r: ControlRequest)
        ensures
            r@ == request_for(
                Some(session_id@),
                seq!["new-window"@, "-t"@, session_id@, "-c"@, project_path@],
            ),
    {
        request(
            Some(text_of(session_id)),
            args5("new-window", "-t", session_id, "-c", project_path),
        )
    }

    pub fn select_window(&self, window_id: &str) -> (r: ControlRequest)
        ensures
            r@ == request_for(None, seq!["select-window"@, "-t"@, window_id@]),
    {
        request(None, args3("select-window", "-t", window_id))
    }

    pub fn select_window_index(&self, session_id: &str, window_index: i32) -> (r: ControlRequest)
        ensures
            r@ == request_for(
                Some(session_id@),
                seq!["select-window"@, "-t"@, window_target(session_id@, window_index as int)],
            ),
    {
        let mut target = chars_of(session_id);
        target.push(':');
        let number = number_chars(window_index as i64);
        push_chars(&mut target, number.as_slice());
        let target_text = string_of(target.as_slice());
        assert(target_text@ =~= window_target(session_id@, window_index as int));
        request(Some(text_of(session_id)), args3("select-window", "-t", target_text.as_str()))
    }

    pub fn next_window(&self) -> (r: ControlRequest)
        ensures
            r@ == request_for(None, seq!["select-window"@, "-n"@]),
    {
        request(None, args2("select-window", "-n"))
    }

    pub fn previous_window(&self) -> (r: ControlRequest)
        ensures
            r@ == request_for(None, seq!["select-window"@, "-p"@]),
    {
        request(None, args2("select-window", "-p"))
    }

    /// Tells the multiplexer the size of the viewport of a session's client.
    pub fn resize_client(&self, session_id: &str, cols: u16, rows: u16) -> (r: ControlRequest)
        ensures
            r@ == request_for(
                Some(session_id@),
                seq!["refresh-client"@, "-C"@, client_size(cols, rows)],
            ),
    {
        let mut size = unsigned_chars(cols as u64);
        size.push('x');
        let height = unsigned_chars(rows as u64);
        push_chars(&mut size, height.as_slice());
        let size_text = string_of(size.as_slice());
        assert(size_text@ =~= client_size(cols, rows));
        request(Some(text_of(session_id)), args3("refresh-client", "-C", size_text.as_str()))
    }

    /// The arguments that send `data` to a pane as literal input; none where
    /// there is nothing to send.
    pub fn send_input(&self, pane_id: &str, data: &str) -> (r: Option<Vec<String>>)
        ensures
            match r {
                Some(args) => data@.len() > 0 && texts(args@) == seq![
                    "send-keys"@,
                    "-l"@,
                    "-t"@,
                    pane_id@,
                    data@,
                ],
                None => data@.len() == 0,
            },
    {
        if data.is_empty() {
            return None;
        }
        Some(args5("send-keys", "-l", "-t", pane_id, data))
    }

    /// The arguments that print all of a pane's scrollback, escapes included.
    pub fn capture_pane(&self, pane_id: &str) -> (r: Vec<String>)
        ensures
            texts(r@) == seq!["capture-pane"@, "-p"@, "-S"@, "-"@, "-e"@, "-t"@, pane_id@],
    {
        let mut args = args5("capture-pane", "-p", "-S", "-", "-e");
        push_arg(&mut args, "-t");
        push_arg(&mut args, pane_id);
        assert(texts(args@) =~= seq![
            "capture-pane"@,
            "-p"@,
            "-S"@,
            "-"@,
            "-e"@,
            "-t"@,
            pane_id@,
        ]);
        args
    }

    /// The arguments that print a pane's cursor position.
    pub fn get_pane_cursor(&self, pane_id: &str) -> (r: Vec<String>)
        ensures
            texts(r@) == seq![
                "display-message"@,
                "-p"@,
                "-t"@,
                pane_id@,
                "#{cursor_x}\t#{cursor_y}"@,
            ],
    {
        args5("display-message", "-p", "-t", pane_id, "#{cursor_x}\t#{cursor_y}")
    }

    pub fn list_sessions(&self) -> (r: Vec<String>)
        ensures
            texts(r@) == seq!["list-sessions"@, "-F"@, "#{session_name}\t#{session_created}"@],
    {
        args3("list-sessions", "-F", "#{session_name}\t#{session_created}")
    }

    pub fn list_windows(&self, session_id: &str) -> (r: Vec<String>)
        ensures
            texts(r@) == seq![
                "list-windows"@,
                "-t"@,
                session_id@,
                "-F"@,
                "#{window_id}\t#{window_index}\t#{window_name}\t#{window_active}\t#{window_width}\t#{window_height}"@,
            ],
    {
        args5(
            "list-windows",
            "-t",
            session_id,
            "-F",
            "#{window_id}\t#{window_index}\t#{window_name}\t#{window_active}\t#{window_width}\t#{window_height}",
        )
    }

    pub fn list_panes(&self, window_id: &str) -> (r: Vec<String>)
        ensures
            texts(r@) == seq![
                "list-panes"@,
                "-t"@,
                window_id@,
                "-F"@,
                "#{pane_id}\t#{pane_left}\t#{pane_top}\t#{pane_width}\t#{pane_height}\t#{pane_active}"@,
            ],
    {
        args5(
            "list-panes",
            "-t",
            window_id,
            "-F",
            "#{pane_id}\t#{pane_left}\t#{pane_top}\t#{pane_width}\t#{pane_height}\t#{pane_active}",
        )
    }
}

/// The arguments that create a detached session that runs `shell` in
/// `project_path`.
pub fn new_session(session_name: &str, project_path: &str, shell: &str) -> (r: Vec<String>)
    ensures
        texts(r@) == seq![
            "new-session"@,
            "-d"@,
            "-s"@,
            session_name@,
            "-c"@,
            project_path@,
            shell@,
        ],
{
    let mut args = args5("new-session", "-d", "-s", session_name, "-c");
    push_arg(&mut args, project_path);
    push_arg(&mut args, shell);
    assert(texts(args@) =~= seq![
        "new-session"@,
        "-d"@,
        "-s"@,
        session_name@,
        "-c"@,
        project_path@,
        shell@,
    ]);
    args
}

pub fn kill_session(session_id: &str) -> (r: Vec<String>)
    ensures
        texts(r@) == seq!["kill-session"@, "-t"@, session_id@],
{
    args3("kill-session", "-t", session_id)
}

pub fn has_session(session_id: &str) -> (r: Vec<String>)
    ensures
        texts(r@) == seq!["has-session"@, "-t"@, session_id@],
{
    args3("has-session", "-t", session_id)
}

pub fn rename_tmux_session(old_name: &str, new_name: &str) -> (r: Vec<String>)
    ensures
        texts(r@) == seq!["rename-session"@, "-t"@, old_name@, new_name@],
{
    args4("rename-session", "-t", old_name, new_name)
}

/// The arguments that attach a control-mode client to a session.
pub fn attach_control(session_id: &str) -> (r: Vec<String>)
    ensures
        texts(r@) == seq!["-CC"@, "attach-session"@, "-t"@, session_id@],
{
    args4("-CC", "attach-session", "-t", session_id)
}

} // verus!
