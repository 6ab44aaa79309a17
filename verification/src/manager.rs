//! The registry of control channels, one per session, and what the session
//! manager decides around the commands it sends.

use crate::command::{
    is_tmux_server_missing_error, is_tmux_session_missing_error, says_server_missing,
    says_session_missing, unicode_lowercase,
};
use crate::text::{str_eq, text_of};
use crate::tracker::{timeout_message, ControlCommandResult, ResultView};
use vstd::prelude::*;

verus! {

/// One control channel in the registry: the session it is attached to, and
/// whether it still counts as alive.
pub struct ControlEntry {
    pub session_id: String,
    pub alive: bool,
}

/// The session manager's own state: the control channels it keeps, oldest
/// first, and the session that is active.
pub struct TerminalManager {
    controls: Vec<ControlEntry>,
    active_session_id: Option<String>,
}

pub struct ManagerView {
    /// Session and liveness of each channel, oldest first.
    pub controls: Seq<(Seq<char>, bool)>,
    pub active_session_id: Option<Seq<char>>,
}

pub open spec fn opt_text(o: Option<String>) -> Option<Seq<char>> {
    match o {
        Some(s) => Some(s@),
        None => None,
    }
}

pub open spec fn entries(v: Seq<ControlEntry>) -> Seq<(Seq<char>, bool)> {
    Seq::new(v.len(), |i: int| (v[i].session_id@, v[i].alive))
}

impl View for TerminalManager {
    type V = ManagerView;

    closed spec fn view(&self) -> ManagerView {
        ManagerView {
            controls: entries(self.controls@),
            active_session_id: opt_text(self.active_session_id),
        }
    }
}

/// Index of the first channel of `session_id` at or after `i`; the length
/// where there is none.
pub open spec fn seek_entry(c: Seq<(Seq<char>, bool)>, session_id: Seq<char>, i: int) -> int
    decreases c.len() - i,
{
    if 0 <= i < c.len() && c[i].0 != session_id {
        seek_entry(c, session_id, i + 1)
    } else {
        i
    }
}

pub open spec fn has_channel(c: Seq<(Seq<char>, bool)>, session_id: Seq<char>) -> bool {
    seek_entry(c, session_id, 0) < c.len()
}

/// Whether the session has a channel that counts as alive.
pub open spec fn has_live_channel(c: Seq<(Seq<char>, bool)>, session_id: Seq<char>) -> bool {
    has_channel(c, session_id) && c[seek_entry(c, session_id, 0)].1
}

/// The registry without the channels of `session_id`.
pub open spec fn without(c: Seq<(Seq<char>, bool)>, session_id: Seq<char>) -> Seq<
    (Seq<char>, bool),
>
    decreases c.len(),
{
    if c.len() == 0 {
        c
    } else if c.last().0 == session_id {
        without(c.drop_last(), session_id)
    } else {
        without(c.drop_last(), session_id).push(c.last())
    }
}

/// The registry with the channels of `session_id` marked dead.
pub open spec fn marked_dead(c: Seq<(Seq<char>, bool)>, session_id: Seq<char>) -> Seq<
    (Seq<char>, bool),
> {
    Seq::new(
        c.len(),
        |i: int|
            if c[i].0 == session_id {
                (c[i].0, false)
            } else {
                c[i]
            },
    )
}

/// The channel that takes a command for `target`: the target's own where a
/// target is named; else that of the active session, if it has one; else
/// the oldest there is.
pub open spec fn chosen(m: ManagerView, target: Option<Seq<char>>) -> Option<int> {
    match target {
        Some(t) => if has_channel(m.controls, t) {
            Some(seek_entry(m.controls, t, 0))
        } else {
            None
        },
        None => if m.active_session_id is Some && has_channel(
            m.controls,
            m.active_session_id->0,
        ) {
            Some(seek_entry(m.controls, m.active_session_id->0, 0))
        } else if m.controls.len() > 0 {
            Some(0)
        } else {
            None
        },
    }
}

pub open spec fn no_client() -> Seq<char> {
    "控制客户端未启动"@
}

pub open spec fn dead_client() -> Seq<char> {
    "控制客户端不可用"@
}

/// Once the channels of a session are taken out, the session has none.
pub proof fn lemma_without_has_none(c: Seq<(Seq<char>, bool)>, session_id: Seq<char>)
    ensures
        !has_channel(without(c, session_id), session_id),
        forall|k: int| 0 <= k < without(c, session_id).len() ==> (#[trigger] without(
            c,
            session_id,
        )[k]).0 != session_id,
    decreases c.len(),
{
    if c.len() > 0 {
        lemma_without_has_none(c.drop_last(), session_id);
    }
    let w = without(c, session_id);
    lemma_seek_all_differ(w, session_id, 0);
}

proof fn lemma_seek_all_differ(c: Seq<(Seq<char>, bool)>, session_id: Seq<char>, i: int)
    requires
        0 <= i <= c.len(),
        forall|k: int| 0 <= k < c.len() ==> (#[trigger] c[k]).0 != session_id,
    ensures
        seek_entry(c, session_id, i) == c.len(),
    decreases c.len() - i,
{
    if i < c.len() {
        lemma_seek_all_differ(c, session_id, i + 1);
    }
}

impl TerminalManager {
    pub fn new() -> (m: Self)
        ensures
            m@.controls.len() == 0,
            m@.active_session_id is None,
    {
        TerminalManager { controls: Vec::new(), active_session_id: None }
    }

    /// How many channels the registry holds.
    pub fn control_count(&self) -> (r: usize)
        ensures
            r == self@.controls.len(),
    {
        self.controls.len()
    }

    /// The session that is active.
    pub fn active_session(&self) -> (r: Option<String>)
        ensures
            opt_text(r) == self@.active_session_id,
    {
        match &self.active_session_id {
            Some(s) => Some(text_of(s.as_str())),
            None => None,
        }
    }

    fn find(&self, session_id: &str) -> (r: usize)
        ensures
            r == seek_entry(self@.controls, session_id@, 0),
            r <= self.controls.len(),
    {
        let mut i: usize = 0;
        while i < self.controls.len() && !str_eq(self.controls[i].session_id.as_str(), session_id)
            invariant
                i <= self.controls.len(),
                seek_entry(self@.controls, session_id@, 0) == seek_entry(
                    self@.controls,
                    session_id@,
                    i as int,
                ),
            decreases self.controls.len() - i,
        {
            i += 1;
        }
        i
    }

    /// Whether the session has a channel that counts as alive.
    pub fn is_alive(&self, session_id: &str) -> (r: bool)
        ensures
            r == has_live_channel(self@.controls, session_id@),
    {
        let i = self.find(session_id);
        i < self.controls.len() && self.controls[i].alive
    }

    fn remove_all(&mut self, session_id: &str)
        ensures
            final(self)@.controls == without(old(self)@.controls, session_id@),
            final(self)@.active_session_id == old(self)@.active_session_id,
    {
        let mut kept: Vec<ControlEntry> = Vec::new();
        let mut i: usize = 0;
        while i < self.controls.len()
            invariant
                i <= self.controls.len(),
                self == old(self),
                entries(kept@) == without(
                    entries(self.controls@).subrange(0, i as int),
                    session_id@,
                ),
            decreases self.controls.len() - i,
        {
            let ghost before = entries(self.controls@).subrange(0, i as int);
            let ghost after = entries(self.controls@).subrange(0, i + 1);
            assert(after.drop_last() =~= before);
            let ghost old_kept = entries(kept@);
            let entry = &self.controls[i];
            if !str_eq(entry.session_id.as_str(), session_id) {
                kept.push(
                    ControlEntry { session_id: text_of(entry.session_id.as_str()), alive: entry.alive },
                );
                assert(entries(kept@) =~= old_kept.push(after.last()));
            }
            i += 1;
        }
        assert(entries(self.controls@).subrange(0, self.controls@.len() as int) =~= entries(
            self.controls@,
        ));
        self.controls = kept;
    }

    /// Whether a channel must be opened before the session can be used.
    /// Where that is so, a dead channel of the session has been taken out
    /// of the registry, and its process is to be killed; the new channel is
    /// entered by `register_control_client` once it is open.
    pub fn ensure_control_client(&mut self, session_id: &str) -> (spawn: bool)
        ensures
            spawn == !has_live_channel(old(self)@.controls, session_id@),
            !spawn ==> final(self)@ == old(self)@,
            spawn ==> final(self)@.controls == without(old(self)@.controls, session_id@)
                && final(self)@.active_session_id == old(self)@.active_session_id,
    {
        if self.is_alive(session_id) {
            return false;
        }
        self.remove_all(session_id);
        true
    }

    /// Enters a channel that has just been opened for the session. It is
    /// the only one the session has from then on.
    pub fn register_control_client(&mut self, session_id: &str)
        ensures
            final(self)@.controls == without(old(self)@.controls, session_id@).push(
                (session_id@, true),
            ),
            final(self)@.active_session_id == old(self)@.active_session_id,
            has_live_channel(final(self)@.controls, session_id@),
    {
        self.remove_all(session_id);
        let ghost base = self@.controls;
        self.controls.push(ControlEntry { session_id: text_of(session_id), alive: true });
        assert(self@.controls =~= base.push((session_id@, true)));
        proof {
            lemma_without_has_none(old(self)@.controls, session_id@);
            lemma_seek_last(base, session_id@, 0);
        }
    }

    /// Takes the session's channel out of the registry. Says whether there
    /// was one: its process is then to be killed.
    pub fn drop_control_client(&mut self, session_id: &str) -> (had: bool)
        ensures
            had == has_channel(old(self)@.controls, session_id@),
            final(self)@.controls == without(old(self)@.controls, session_id@),
            final(self)@.active_session_id == old(self)@.active_session_id,
            !has_channel(final(self)@.controls, session_id@),
    {
        let had = self.find(session_id) < self.controls.len();
        self.remove_all(session_id);
        proof {
            lemma_without_has_none(old(self)@.controls, session_id@);
        }
        had
    }

    /// Marks the session's channel dead: commands for it take the one-shot
    /// path until a new channel is opened.
    pub fn mark_unhealthy(&mut self, session_id: &str)
        ensures
            final(self)@.controls == marked_dead(old(self)@.controls, session_id@),
            final(self)@.active_session_id == old(self)@.active_session_id,
    {
        let mut marked: Vec<ControlEntry> = Vec::new();
        let mut i: usize = 0;
        while i < self.controls.len()
            invariant
                i <= self.controls.len(),
                self == old(self),
                entries(marked@) == marked_dead(old(self)@.controls, session_id@).subrange(
                    0,
                    i as int,
                ),
            decreases self.controls.len() - i,
        {
            let entry = &self.controls[i];
            let alive = entry.alive && !str_eq(entry.session_id.as_str(), session_id);
            let ghost old_marked = entries(marked@);
            let ghost target = marked_dead(old(self)@.controls, session_id@);
            assert(old(self)@.controls[i as int] == (entry.session_id@, entry.alive));
            assert(target[i as int] == (entry.session_id@, alive));
            marked.push(ControlEntry { session_id: text_of(entry.session_id.as_str()), alive });
            assert(entries(marked@) =~= old_marked.push((entry.session_id@, alive)));
            i += 1;
            assert(entries(marked@) =~= marked_dead(old(self)@.controls, session_id@).subrange(
                0,
                i as int,
            ));
        }
        assert(entries(marked@) =~= marked_dead(old(self)@.controls, session_id@));
        self.controls = marked;
    }

    /// Makes the session the active one.
    pub fn switch_session(&mut self, session_id: &str)
        ensures
            final(self)@.active_session_id == Some(session_id@),
            final(self)@.controls == old(self)@.controls,
    {
        self.active_session_id = Some(text_of(session_id));
    }

    /// Forgets a session that is being closed: its channel leaves the
    /// registry, and the session is no longer the active one. Says whether
    /// there was a channel to kill.
    pub fn close_session(&mut self, session_id: &str) -> (had: bool)
        ensures
            had == has_channel(old(self)@.controls, session_id@),
            final(self)@.controls == without(old(self)@.controls, session_id@),
            final(self)@.active_session_id == (if old(self)@.active_session_id == Some(
                session_id@,
            ) {
                None
            } else {
                old(self)@.active_session_id
            }),
    {
        let had = self.drop_control_client(session_id);
        let is_active = match &self.active_session_id {
            Some(active) => str_eq(active.as_str(), session_id),
            None => false,
        };
        if is_active {
            self.active_session_id = None;
        }
        had
    }

    /// The channel that takes a command for `target`, by its place in the
    /// registry.
    pub fn control_client_for_target(&self, target: Option<&str>) -> (r: Option<usize>)
        ensures
            match r {
                Some(i) => chosen(self@, opt_str(target)) == Some(i as int) && i
                    < self@.controls.len(),
                None => chosen(self@, opt_str(target)) is None,
            },
    {
        match target {
            Some(t) => {
                let i = self.find(t);
                if i < self.controls.len() {
                    Some(i)
                } else {
                    None
                }
            },
            None => {
                match &self.active_session_id {
                    Some(active) => {
                        let i = self.find(active.as_str());
                        if i < self.controls.len() {
                            return Some(i);
                        }
                    },
                    None => {},
                }
                if self.controls.len() > 0 {
                    Some(0)
                } else {
                    None
                }
            },
        }
    }

    /// The session whose channel takes a command for `target`, or why no
    /// channel can: none is there, or the one that is there is dead.
    pub fn send_control_command_to(&self, target: Option<&str>) -> (r: Result<String, String>)
        ensures
            match chosen(self@, opt_str(target)) {
                None => r is Err && r->Err_0@ == no_client(),
                Some(i) => if self@.controls[i].1 {
                    r is Ok && r->Ok_0@ == self@.controls[i].0
                } else {
                    r is Err && r->Err_0@ == dead_client()
                },
            },
    {
        match self.control_client_for_target(target) {
            None => Err(text_of("控制客户端未启动")),
            Some(i) => {
                if !self.controls[i].alive {
                    Err(text_of("控制客户端不可用"))
                } else {
                    Ok(text_of(self.controls[i].session_id.as_str()))
                }
            },
        }
    }
}

pub open spec fn opt_str(o: Option<&str>) -> Option<Seq<char>> {
    match o {
        Some(s) => Some(s@),
        None => None,
    }
}

proof fn lemma_seek_last(c: Seq<(Seq<char>, bool)>, session_id: Seq<char>, i: int)
    requires
        0 <= i <= c.len(),
        forall|k: int| 0 <= k < c.len() ==> (#[trigger] c[k]).0 != session_id,
    ensures
        seek_entry(c.push((session_id, true)), session_id, i) == c.len(),
    decreases c.len() - i,
{
    let e = c.push((session_id, true));
    if i < c.len() {
        assert(e[i] == c[i]);
        lemma_seek_last(c, session_id, i + 1);
    }
}

/// What the caller of a command learns: success, the failure that the
/// multiplexer reported, or that no result came in time.
pub open spec fn outcome_of(received: Option<ResultView>) -> Result<(), Seq<char>> {
    match received {
        Some(ResultView::Success { output }) => Ok(()),
        Some(ResultView::Error { message, output }) => Err(message),
        None => Err(timeout_message()),
    }
}

pub open spec fn result_view(r: Result<(), String>) -> Result<(), Seq<char>> {
    match r {
        Ok(_) => Ok(()),
        Err(e) => Err(e@),
    }
}

pub open spec fn opt_result(o: Option<ControlCommandResult>) -> Option<ResultView> {
    match o {
        Some(r) => Some(r@),
        None => None,
    }
}

/// Reads the result of a command that went through a control channel;
/// `received` is what arrived in time, if anything did. On any failure the
/// operation is owed an attempt by one-shot invocation.
pub fn control_outcome(received: Option<ControlCommandResult>) -> (r: Result<(), String>)
    ensures
        result_view(r) == outcome_of(opt_result(received)),
{
    match received {
        Some(ControlCommandResult::Success { output: _ }) => Ok(()),
        Some(ControlCommandResult::Error { message, output: _ }) => Err(message),
        None => Err(text_of("控制命令超时")),
    }
}

/// Whether the failure to kill a session leaves nothing to do: no server
/// runs, or the session is gone already.
pub open spec fn nothing_to_kill(lower: Seq<char>) -> bool {
    says_server_missing(lower) || says_session_missing(lower)
}

/// What closing a session comes to, given how killing it went: a session
/// that was not there counts as closed.
pub fn close_outcome(kill: Result<(), String>) -> (r: Result<(), String>)
    ensures
        match kill {
            Ok(_) => r is Ok,
            Err(e) => if nothing_to_kill(unicode_lowercase(e@)) {
                r is Ok
            } else {
                r is Err && r->Err_0@ == e@
            },
        },
{
    match kill {
        Ok(_) => Ok(()),
        Err(e) => {
            if is_tmux_server_missing_error(e.as_str()) || is_tmux_session_missing_error(
                e.as_str(),
            ) {
                Ok(())
            } else {
                Err(e)
            }
        },
    }
}

/// What an operation does once its command has been offered to a control
/// channel.
#[derive(Debug, Clone, Copy, PartialEq, Eq)]
pub enum NextStep {
    /// Nothing more: the channel carried the command out.
    Done,
    /// The same by one-shot invocation: no channel could take the command,
    /// or the command failed or timed out on the channel.
    Fallback,
}

/// Decides whether an operation falls back to a one-shot invocation: it
/// does after every failure on the control channel, and only then.
pub fn send_control_or_fallback(control: &Result<(), String>) -> (r: NextStep)
    ensures
        r == (if *control is Ok {
            NextStep::Done
        } else {
            NextStep::Fallback
        }),
{
    match control {
        Ok(_) => NextStep::Done,
        Err(_) => NextStep::Fallback,
    }
}

} // verus!
