//! Monitoring of agent sessions: what state a session is in, and which
//! events a change of state gives rise to.

use crate::fields::{lines, rows, split_lines};
use crate::models::{
    CodexAgentEvent, CodexAgentEventType, CodexMonitorSession, CodexMonitorSnapshot,
    CodexMonitorState,
};
use crate::text::{
    after_prefix, ascii_lowercase, chars_of, contains, ends_with, has_prefix, has_suffix, is_text,
    starts_with, str_eq, string_of, text_of, to_ascii_lowercase, trim, trim_slice,
};
use vstd::prelude::*;

verus! {

pub const ACTIVE_WINDOW_MS: i64 = 10_000;

pub const COMPLETION_WINDOW_MS: i64 = 3_000;

pub const ERROR_WINDOW_MS: i64 = 90_000;

pub const NEEDS_ATTENTION_WINDOW_MS: i64 = 900_000;

pub const OFFLINE_GRACE_MS: i64 = 15_000;

pub const RECENT_FILE_WINDOW_MS: i64 = 300_000;

pub open spec fn opt_text(o: Option<String>) -> Option<Seq<char>> {
    match o {
        Some(s) => Some(s@),
        None => None,
    }
}

pub open spec fn opt_state(o: Option<&CodexMonitorState>) -> Option<CodexMonitorState> {
    match o {
        Some(s) => Some(*s),
        None => None,
    }
}

/// Whether a session in this state is busy.
pub open spec fn is_busy(s: CodexMonitorState) -> bool {
    s == CodexMonitorState::Working || s == CodexMonitorState::NeedsAttention || s
        == CodexMonitorState::Error
}

/// The event that a change of state gives rise to, if any. Entering an
/// error, a need for attention, work or completion is an event each; going
/// idle or offline is one only after one of those.
pub open spec fn transition_event(
    previous: Option<CodexMonitorState>,
    current: CodexMonitorState,
) -> Option<CodexAgentEventType> {
    match current {
        CodexMonitorState::Error => if previous == Some(CodexMonitorState::Error) {
            None
        } else {
            Some(CodexAgentEventType::TaskError)
        },
        CodexMonitorState::NeedsAttention => if previous == Some(
            CodexMonitorState::NeedsAttention,
        ) {
            None
        } else {
            Some(CodexAgentEventType::NeedsAttention)
        },
        CodexMonitorState::Working => if previous == Some(CodexMonitorState::Working) {
            None
        } else {
            Some(CodexAgentEventType::AgentActive)
        },
        CodexMonitorState::Completed => if previous == Some(CodexMonitorState::Completed) {
            None
        } else {
            Some(CodexAgentEventType::TaskComplete)
        },
        _ => if previous is Some && (is_busy(previous->0) || previous->0
            == CodexMonitorState::Completed) {
            Some(CodexAgentEventType::AgentIdle)
        } else {
            None
        },
    }
}

fn same_state(a: &CodexMonitorState, b: &CodexMonitorState) -> (r: bool)
    ensures
        r == (*a == *b),
{
    match (a, b) {
        (CodexMonitorState::Offline, CodexMonitorState::Offline) => true,
        (CodexMonitorState::Idle, CodexMonitorState::Idle) => true,
        (CodexMonitorState::Working, CodexMonitorState::Working) => true,
        (CodexMonitorState::Completed, CodexMonitorState::Completed) => true,
        (CodexMonitorState::Error, CodexMonitorState::Error) => true,
        (CodexMonitorState::NeedsAttention, CodexMonitorState::NeedsAttention) => true,
        _ => false,
    }
}

fn was(previous: Option<&CodexMonitorState>, state: CodexMonitorState) -> (r: bool)
    ensures
        r == (opt_state(previous) == Some(state)),
{
    match previous {
        Some(p) => same_state(p, &state),
        None => false,
    }
}

pub fn transition_to_event_type(
    previous: Option<&CodexMonitorState>,
    current: &CodexMonitorState,
) -> (r: Option<CodexAgentEventType>)
    ensures
        r == transition_event(opt_state(previous), *current),
{
    match current {
        CodexMonitorState::Error => {
            if was(previous, CodexMonitorState::Error) {
                None
            } else {
                Some(CodexAgentEventType::TaskError)
            }
        },
        CodexMonitorState::NeedsAttention => {
            if was(previous, CodexMonitorState::NeedsAttention) {
                None
            } else {
                Some(CodexAgentEventType::NeedsAttention)
            }
        },
        CodexMonitorState::Working => {
            if was(previous, CodexMonitorState::Working) {
                None
            } else {
                Some(CodexAgentEventType::AgentActive)
            }
        },
        CodexMonitorState::Completed => {
            if was(previous, CodexMonitorState::Completed) {
                None
            } else {
                Some(CodexAgentEventType::TaskComplete)
            }
        },
        _ => {
            if was(previous, CodexMonitorState::Working) || was(
                previous,
                CodexMonitorState::NeedsAttention,
            ) || was(previous, CodexMonitorState::Error) || was(
                previous,
                CodexMonitorState::Completed,
            ) {
                Some(CodexAgentEventType::AgentIdle)
            } else {
                None
            }
        },
    }
}

/// Whether a session in this state changes state by the mere passing of
/// time, so that it must be looked at again though its file is unchanged.
pub fn requires_time_based_refresh(state: &CodexMonitorState) -> (r: bool)
    ensures
        r == (is_busy(*state) || *state == CodexMonitorState::Completed),
{
    match state {
        CodexMonitorState::Working => true,
        CodexMonitorState::Completed => true,
        CodexMonitorState::NeedsAttention => true,
        CodexMonitorState::Error => true,
        _ => false,
    }
}

fn copy_opt(o: &Option<String>) -> (r: Option<String>)
    ensures
        opt_text(r) == opt_text(*o),
{
    match o {
        Some(s) => Some(text_of(s.as_str())),
        None => None,
    }
}

/// The event of the given type for a session.
pub fn build_session_event(
    event_type: CodexAgentEventType,
    session: &CodexMonitorSession,
    timestamp: i64,
) -> (e: CodexAgentEvent)
    ensures
        e.event_type == event_type,
        e.agent@ == "codex"@,
        e.timestamp == timestamp,
        opt_text(e.details) == opt_text(session.details),
        opt_text(e.session_id) == Some(session.id@),
        opt_text(e.session_title) == opt_text(session.session_title),
        opt_text(e.working_directory) == (if session.cwd@.len() == 0 {
            None
        } else {
            Some(session.cwd@)
        }),
{
    CodexAgentEvent {
        event_type,
        agent: text_of("codex"),
        timestamp,
        details: copy_opt(&session.details),
        session_id: Some(text_of(session.id.as_str())),
        session_title: copy_opt(&session.session_title),
        working_directory: if session.cwd.as_str().is_empty() {
            None
        } else {
            Some(text_of(session.cwd.as_str()))
        },
    }
}

/// Whether a line of `lsof -F pc` output names the agent as the command
/// that holds the file open.
pub open spec fn names_codex(line: Seq<char>) -> bool {
    has_prefix(line, seq!['c']) && ({
        let name = ascii_lowercase(trim(after_prefix(line, seq!['c'])));
        name == "codex"@ || name == "codex.exe"@
    })
}

pub open spec fn any_names_codex(rows: Seq<Seq<char>>) -> bool {
    exists|i: int| 0 <= i < rows.len() && names_codex(#[trigger] rows[i])
}

/// Whether the output of `lsof -F pc` shows the agent among the processes
/// that hold a file open.
pub fn lsof_stdout_indicates_codex_open(stdout: &str) -> (r: bool)
    ensures
        r == any_names_codex(lines(stdout@)),
{
    let chars = chars_of(stdout);
    let all = split_lines(chars.as_slice());
    let mut i: usize = 0;
    while i < all.len()
        invariant
            i <= all.len(),
            rows(all@) == lines(stdout@),
            forall|k: int| 0 <= k < i ==> !names_codex(#[trigger] rows(all@)[k]),
        decreases all.len() - i,
    {
        let line = all[i].as_slice();
        assert(rows(all@)[i as int] == line@);
        if line.len() > 0 && line[0] == 'c' {
            assert(line@.subrange(0, 1) =~= seq!['c']);
            let name = to_ascii_lowercase(trim_slice(&line[1..line.len()]));
            if is_text(name.as_slice(), "codex") || is_text(name.as_slice(), "codex.exe") {
                assert(names_codex(rows(all@)[i as int]));
                return true;
            }
        } else {
            assert(!has_prefix(line@, seq!['c'])) by {
                if has_prefix(line@, seq!['c']) {
                    assert(line@.subrange(0, 1)[0] == 'c');
                }
            }
        }
        i += 1;
    }
    false
}

/// `input` cut to at most `max_chars` characters, with an ellipsis where
/// something was cut.
pub open spec fn truncated(input: Seq<char>, max_chars: nat) -> Seq<char> {
    if input.len() <= max_chars {
        input
    } else {
        input.subrange(0, max_chars as int).push('…')
    }
}

pub fn truncate_text(input: &str, max_chars: usize) -> (r: String)
    ensures
        r@ == truncated(input@, max_chars as nat),
{
    let chars = chars_of(input);
    if chars.len() <= max_chars {
        return string_of(chars.as_slice());
    }
    let mut out = crate::fields::to_vec(&chars.as_slice()[0..max_chars]);
    out.push('…');
    string_of(out.as_slice())
}

/// Whether a file name is that of a session's rollout file.
pub fn is_rollout_file(file_name: Option<&str>) -> (r: bool)
    ensures
        r == (file_name is Some && has_prefix(file_name->0@, "rollout-"@) && has_suffix(
            file_name->0@,
            ".jsonl"@,
        )),
{
    match file_name {
        Some(name) => {
            let chars = chars_of(name);
            starts_with(chars.as_slice(), "rollout-") && ends_with(chars.as_slice(), ".jsonl")
        },
        None => false,
    }
}

/// What the log of a session has shown so far, as times in milliseconds; 0
/// stands for never.
#[derive(Debug, Clone, PartialEq, Eq)]
pub struct SessionTracker {
    pub last_activity_at: i64,
    pub last_user_ts: i64,
    pub last_assistant_ts: i64,
    pub last_abort_ts: i64,
    pub last_agent_activity_ts: i64,
    pub last_error_ts: i64,
    pub last_needs_attention_ts: i64,
    pub session_title: Option<String>,
    pub details: Option<String>,
    pub model: Option<String>,
    pub effort: Option<String>,
}

pub struct TrackerView {
    pub last_activity_at: i64,
    pub last_user_ts: i64,
    pub last_assistant_ts: i64,
    pub last_abort_ts: i64,
    pub last_agent_activity_ts: i64,
    pub last_error_ts: i64,
    pub last_needs_attention_ts: i64,
    pub session_title: Option<Seq<char>>,
    pub details: Option<Seq<char>>,
    pub model: Option<Seq<char>>,
    pub effort: Option<Seq<char>>,
}

impl View for SessionTracker {
    type V = TrackerView;

    open spec fn view(&self) -> TrackerView {
        TrackerView {
            last_activity_at: self.last_activity_at,
            last_user_ts: self.last_user_ts,
            last_assistant_ts: self.last_assistant_ts,
            last_abort_ts: self.last_abort_ts,
            last_agent_activity_ts: self.last_agent_activity_ts,
            last_error_ts: self.last_error_ts,
            last_needs_attention_ts: self.last_needs_attention_ts,
            session_title: opt_text(self.session_title),
            details: opt_text(self.details),
            model: opt_text(self.model),
            effort: opt_text(self.effort),
        }
    }
}


/// Whether something that happened at `at` still counts at `now`, `window`
/// milliseconds being the time it counts for.
pub open spec fn within(now: i64, at: i64, window: i64) -> bool {
    at > 0 && now - at <= window
}

/// Whether the user's last turn is still unanswered.
pub open spec fn pending_turn(t: TrackerView) -> bool {
    t.last_user_ts > 0 && t.last_user_ts > t.last_assistant_ts && t.last_user_ts > t.last_abort_ts
}

/// The state of a session at `now`. An error outweighs a need for
/// attention, that outweighs work, and work a completion; a session whose
/// agent does not run and that has been silent for longer than the grace
/// period is offline, unless it has just completed.
pub open spec fn state_at(t: TrackerView, now: i64, is_codex_running: bool) -> CodexMonitorState {
    let streaming = t.last_agent_activity_ts >= t.last_user_ts && within(
        now,
        t.last_agent_activity_ts,
        ACTIVE_WINDOW_MS,
    );
    let state = if within(now, t.last_error_ts, ERROR_WINDOW_MS) {
        CodexMonitorState::Error
    } else if within(now, t.last_needs_attention_ts, NEEDS_ATTENTION_WINDOW_MS) {
        CodexMonitorState::NeedsAttention
    } else if pending_turn(t) && streaming {
        CodexMonitorState::Working
    } else if !pending_turn(t) && within(now, t.last_assistant_ts, COMPLETION_WINDOW_MS) {
        CodexMonitorState::Completed
    } else {
        CodexMonitorState::Idle
    };
    if !is_codex_running && now - t.last_activity_at > OFFLINE_GRACE_MS && state
        != CodexMonitorState::Completed {
        CodexMonitorState::Offline
    } else {
        state
    }
}

fn still_counts(now: i64, at: i64, window: i64) -> (r: bool)
    requires
        0 <= window <= 1_000_000,
    ensures
        r == within(now, at, window),
{
    if at <= 0 {
        return false;
    }
    match now.checked_sub(at) {
        Some(age) => age <= window,
        None => {
            // `now - at` is below every `i64` here, `at` being positive.
            true
        },
    }
}

/// The state of a session at `now`, from what its log has shown.
pub fn session_state(tracker: &SessionTracker, now_ms: i64, is_codex_running: bool) -> (r:
    CodexMonitorState)
    ensures
        r == state_at(tracker@, now_ms, is_codex_running),
{
    let pending = tracker.last_user_ts > 0 && tracker.last_user_ts > tracker.last_assistant_ts
        && tracker.last_user_ts > tracker.last_abort_ts;
    let streaming = tracker.last_agent_activity_ts >= tracker.last_user_ts && still_counts(
        now_ms,
        tracker.last_agent_activity_ts,
        ACTIVE_WINDOW_MS,
    );
    let state = if still_counts(now_ms, tracker.last_error_ts, ERROR_WINDOW_MS) {
        CodexMonitorState::Error
    } else if still_counts(now_ms, tracker.last_needs_attention_ts, NEEDS_ATTENTION_WINDOW_MS) {
        CodexMonitorState::NeedsAttention
    } else if pending && streaming {
        CodexMonitorState::Working
    } else if !pending && still_counts(now_ms, tracker.last_assistant_ts, COMPLETION_WINDOW_MS) {
        CodexMonitorState::Completed
    } else {
        CodexMonitorState::Idle
    };
    let silent = match now_ms.checked_sub(tracker.last_activity_at) {
        Some(age) => age > OFFLINE_GRACE_MS,
        None => tracker.last_activity_at < 0,
    };
    if !is_codex_running && silent && !same_state(&state, &CodexMonitorState::Completed) {
        CodexMonitorState::Offline
    } else {
        state
    }
}

/// What the monitor remembers from one look at the sessions to the next.
pub struct MonitorRuntime {
    previous_states: Vec<(String, CodexMonitorState)>,
    previous_process_running: bool,
    has_bootstrapped: bool,
}

pub struct RuntimeView {
    /// The state in which each session was seen last.
    pub previous_states: Seq<(Seq<char>, CodexMonitorState)>,
    pub previous_process_running: bool,
    pub has_bootstrapped: bool,
}

pub open spec fn state_views(v: Seq<(String, CodexMonitorState)>) -> Seq<
    (Seq<char>, CodexMonitorState),
> {
    Seq::new(v.len(), |i: int| (v[i].0@, v[i].1))
}

impl View for MonitorRuntime {
    type V = RuntimeView;

    closed spec fn view(&self) -> RuntimeView {
        RuntimeView {
            previous_states: state_views(self.previous_states@),
            previous_process_running: self.previous_process_running,
            has_bootstrapped: self.has_bootstrapped,
        }
    }
}

/// Index of the first session `id` at or after `i`; the length where there
/// is none.
pub open spec fn seek_state(states: Seq<(Seq<char>, CodexMonitorState)>, id: Seq<char>, i: int) -> int
    decreases states.len() - i,
{
    if 0 <= i < states.len() && states[i].0 != id {
        seek_state(states, id, i + 1)
    } else {
        i
    }
}

/// The state in which a session was seen.
pub open spec fn state_of(states: Seq<(Seq<char>, CodexMonitorState)>, id: Seq<char>) -> Option<
    CodexMonitorState,
> {
    let i = seek_state(states, id, 0);
    if 0 <= i < states.len() {
        Some(states[i].1)
    } else {
        None
    }
}

/// The states with that of one session set.
pub open spec fn with_state(
    states: Seq<(Seq<char>, CodexMonitorState)>,
    id: Seq<char>,
    state: CodexMonitorState,
) -> Seq<(Seq<char>, CodexMonitorState)> {
    let i = seek_state(states, id, 0);
    if 0 <= i < states.len() {
        states.update(i, (id, state))
    } else {
        states.push((id, state))
    }
}

pub struct SessionFacts {
    pub id: Seq<char>,
    pub cwd: Seq<char>,
    pub state: CodexMonitorState,
    pub session_title: Option<Seq<char>>,
    pub details: Option<Seq<char>>,
}

pub open spec fn facts_of(s: CodexMonitorSession) -> SessionFacts {
    SessionFacts {
        id: s.id@,
        cwd: s.cwd@,
        state: s.state,
        session_title: opt_text(s.session_title),
        details: opt_text(s.details),
    }
}

pub open spec fn session_facts(v: Seq<CodexMonitorSession>) -> Seq<SessionFacts> {
    Seq::new(v.len(), |i: int| facts_of(v[i]))
}

/// The states of the sessions of a snapshot.
pub open spec fn states_of(sessions: Seq<SessionFacts>) -> Seq<(Seq<char>, CodexMonitorState)>
    decreases sessions.len(),
{
    if sessions.len() == 0 {
        seq![]
    } else {
        with_state(states_of(sessions.drop_last()), sessions.last().id, sessions.last().state)
    }
}

pub struct EventView {
    pub event_type: CodexAgentEventType,
    pub agent: Seq<char>,
    pub timestamp: i64,
    pub details: Option<Seq<char>>,
    pub session_id: Option<Seq<char>>,
    pub session_title: Option<Seq<char>>,
    pub working_directory: Option<Seq<char>>,
}

impl View for CodexAgentEvent {
    type V = EventView;

    open spec fn view(&self) -> EventView {
        EventView {
            event_type: self.event_type,
            agent: self.agent@,
            timestamp: self.timestamp,
            details: opt_text(self.details),
            session_id: opt_text(self.session_id),
            session_title: opt_text(self.session_title),
            working_directory: opt_text(self.working_directory),
        }
    }
}

pub open spec fn event_views(v: Seq<CodexAgentEvent>) -> Seq<EventView> {
    Seq::new(v.len(), |i: int| v[i]@)
}

/// The event of a session.
pub open spec fn session_event(
    event_type: CodexAgentEventType,
    session: SessionFacts,
    timestamp: i64,
) -> EventView {
    EventView {
        event_type,
        agent: "codex"@,
        timestamp,
        details: session.details,
        session_id: Some(session.id),
        session_title: session.session_title,
        working_directory: if session.cwd.len() == 0 {
            None
        } else {
            Some(session.cwd)
        },
    }
}

/// The events of the sessions that changed state, in the order of the
/// snapshot.
pub open spec fn transition_events(
    previous: Seq<(Seq<char>, CodexMonitorState)>,
    sessions: Seq<SessionFacts>,
    timestamp: i64,
) -> Seq<EventView>
    decreases sessions.len(),
{
    if sessions.len() == 0 {
        seq![]
    } else {
        let head = transition_events(previous, sessions.drop_last(), timestamp);
        let session = sessions.last();
        match transition_event(state_of(previous, session.id), session.state) {
            Some(event_type) => head.push(session_event(event_type, session, timestamp)),
            None => head,
        }
    }
}

/// The event of a session that is gone.
pub open spec fn ended_event(id: Seq<char>, timestamp: i64) -> EventView {
    EventView {
        event_type: CodexAgentEventType::AgentIdle,
        agent: "codex"@,
        timestamp,
        details: Some("会话已结束"@),
        session_id: Some(id),
        session_title: None,
        working_directory: None,
    }
}

/// The events of the sessions that were busy and are gone, in the order in
/// which they were seen.
pub open spec fn ended_events(
    previous: Seq<(Seq<char>, CodexMonitorState)>,
    next: Seq<(Seq<char>, CodexMonitorState)>,
    timestamp: i64,
) -> Seq<EventView>
    decreases previous.len(),
{
    if previous.len() == 0 {
        seq![]
    } else {
        let head = ended_events(previous.drop_last(), next, timestamp);
        let (id, state) = previous.last();
        if state_of(next, id) is None && is_busy(state) {
            head.push(ended_event(id, timestamp))
        } else {
            head
        }
    }
}

/// The event of the agent itself starting or stopping.
pub open spec fn process_event(running: bool, timestamp: i64) -> EventView {
    EventView {
        event_type: if running {
            CodexAgentEventType::AgentStart
        } else {
            CodexAgentEventType::AgentStop
        },
        agent: "codex"@,
        timestamp,
        details: None,
        session_id: None,
        session_title: None,
        working_directory: None,
    }
}

/// The events that a snapshot gives rise to: none at the first look, and
/// none where events are not asked for; else the agent's own start or
/// stop, then the changes of the sessions, then the sessions that are gone.
pub open spec fn monitor_events(
    runtime: RuntimeView,
    sessions: Seq<SessionFacts>,
    is_codex_running: bool,
    timestamp: i64,
    emit_events: bool,
) -> Seq<EventView> {
    if !runtime.has_bootstrapped || !emit_events {
        seq![]
    } else {
        (if runtime.previous_process_running != is_codex_running {
            seq![process_event(is_codex_running, timestamp)]
        } else {
            seq![]
        }) + transition_events(runtime.previous_states, sessions, timestamp) + ended_events(
            runtime.previous_states,
            states_of(sessions),
            timestamp,
        )
    }
}

fn find_state(states: &Vec<(String, CodexMonitorState)>, id: &str) -> (r: usize)
    ensures
        r == seek_state(state_views(states@), id@, 0),
        r <= states.len(),
{
    let mut i: usize = 0;
    while i < states.len() && !str_eq(states[i].0.as_str(), id)
        invariant
            i <= states.len(),
            seek_state(state_views(states@), id@, 0) == seek_state(
                state_views(states@),
                id@,
                i as int,
            ),
        decreases states.len() - i,
    {
        i += 1;
    }
    i
}

fn set_state(states: &mut Vec<(String, CodexMonitorState)>, id: &str, state: CodexMonitorState)
    ensures
        state_views(final(states)@) == with_state(state_views(old(states)@), id@, state),
{
    let i = find_state(states, id);
    let ghost before = state_views(states@);
    if i < states.len() {
        states.remove(i);
        states.insert(i, (text_of(id), state));
        assert(state_views(states@) =~= before.update(i as int, (id@, state)));
    } else {
        states.push((text_of(id), state));
        assert(state_views(states@) =~= before.push((id@, state)));
    }
}

impl MonitorRuntime {
    pub fn new() -> (r: Self)
        ensures
            r@.previous_states.len() == 0,
            !r@.previous_process_running,
            !r@.has_bootstrapped,
    {
        MonitorRuntime {
            previous_states: Vec::new(),
            previous_process_running: false,
            has_bootstrapped: false,
        }
    }
}

/// Works out the events that a snapshot gives rise to, and remembers the
/// snapshot for the next look.
pub fn build_monitor_events(
    runtime: &mut MonitorRuntime,
    snapshot: &CodexMonitorSnapshot,
    timestamp: i64,
    emit_events: bool,
) -> (events: Vec<CodexAgentEvent>)
    ensures
        event_views(events@) == monitor_events(
            old(runtime)@,
            session_facts(snapshot.sessions@),
            snapshot.is_codex_running,
            timestamp,
            emit_events,
        ),
        final(runtime)@ == (RuntimeView {
            previous_states: states_of(session_facts(snapshot.sessions@)),
            previous_process_running: snapshot.is_codex_running,
            has_bootstrapped: true,
        }),
{
    let mut events: Vec<CodexAgentEvent> = Vec::new();
    let active = runtime.has_bootstrapped && emit_events;
    let ghost facts = session_facts(snapshot.sessions@);
    let ghost previous = runtime@.previous_states;
    if active && runtime.previous_process_running != snapshot.is_codex_running {
        events.push(
            CodexAgentEvent {
                event_type: if snapshot.is_codex_running {
                    CodexAgentEventType::AgentStart
                } else {
                    CodexAgentEventType::AgentStop
                },
                agent: text_of("codex"),
                timestamp,
                details: None,
                session_id: None,
                session_title: None,
                working_directory: None,
            },
        );
    }
    let ghost first = event_views(events@);
    assert(first =~= (if active && old(runtime)@.previous_process_running
        != snapshot.is_codex_running {
        seq![process_event(snapshot.is_codex_running, timestamp)]
    } else {
        seq![]
    }));
    let mut next_states: Vec<(String, CodexMonitorState)> = Vec::new();
    let mut i: usize = 0;
    assert(state_views(next_states@) =~= states_of(facts.subrange(0, 0)));
    assert(event_views(events@) =~= first + transition_events(
        previous,
        facts.subrange(0, 0),
        timestamp,
    ));
    while i < snapshot.sessions.len()
        invariant
            i <= snapshot.sessions.len(),
            facts == session_facts(snapshot.sessions@),
            previous == runtime@.previous_states,
            *runtime == *old(runtime),
            state_views(next_states@) == states_of(facts.subrange(0, i as int)),
            event_views(events@) == (if active {
                first + transition_events(previous, facts.subrange(0, i as int), timestamp)
            } else {
                first
            }),
        decreases snapshot.sessions.len() - i,
    {
        let session = &snapshot.sessions[i];
        let ghost after = facts.subrange(0, i + 1);
        assert(after.drop_last() =~= facts.subrange(0, i as int));
        assert(after.last() == facts_of(*session));
        set_state(&mut next_states, session.id.as_str(), session.state);
        if active {
            let p = find_state(&runtime.previous_states, session.id.as_str());
            let seen = if p < runtime.previous_states.len() {
                assert(previous[p as int].1 == runtime.previous_states@[p as int].1);
                Some(&runtime.previous_states[p].1)
            } else {
                None
            };
            if let Some(event_type) = transition_to_event_type(seen, &session.state) {
                let ghost before = event_views(events@);
                let event = build_session_event(event_type, session, timestamp);
                events.push(event);
                assert(event_views(events@) =~= before.push(
                    session_event(event_type, facts_of(*session), timestamp),
                ));
            }
        }
        i += 1;
    }
    assert(facts.subrange(0, facts.len() as int) =~= facts);
    let ghost second = event_views(events@);
    let mut k: usize = 0;
    assert(previous.subrange(0, 0) =~= Seq::<(Seq<char>, CodexMonitorState)>::empty());
    while k < runtime.previous_states.len()
        invariant
            k <= runtime.previous_states.len(),
            previous == runtime@.previous_states,
            *runtime == *old(runtime),
            state_views(next_states@) == states_of(facts),
            event_views(events@) == (if active {
                second + ended_events(
                    previous.subrange(0, k as int),
                    states_of(facts),
                    timestamp,
                )
            } else {
                second
            }),
        decreases runtime.previous_states.len() - k,
    {
        let ghost after = previous.subrange(0, k + 1);
        assert(after.drop_last() =~= previous.subrange(0, k as int));
        assert(after.last() == (
            runtime.previous_states@[k as int].0@,
            runtime.previous_states@[k as int].1,
        ));
        if active {
            let entry = &runtime.previous_states[k];
            let gone = find_state(&next_states, entry.0.as_str()) >= next_states.len();
            let busy = match entry.1 {
                CodexMonitorState::Working => true,
                CodexMonitorState::NeedsAttention => true,
                CodexMonitorState::Error => true,
                _ => false,
            };
            if gone && busy {
                let ghost before = event_views(events@);
                events.push(
                    CodexAgentEvent {
                        event_type: CodexAgentEventType::AgentIdle,
                        agent: text_of("codex"),
                        timestamp,
                        details: Some(text_of("会话已结束")),
                        session_id: Some(text_of(entry.0.as_str())),
                        session_title: None,
                        working_directory: None,
                    },
                );
                assert(event_views(events@) =~= before.push(ended_event(entry.0@, timestamp)));
            }
        }
        k += 1;
    }
    assert(previous.subrange(0, previous.len() as int) =~= previous);
    runtime.previous_states = next_states;
    runtime.previous_process_running = snapshot.is_codex_running;
    runtime.has_bootstrapped = true;
    assert(event_views(events@) =~= monitor_events(
        old(runtime)@,
        facts,
        snapshot.is_codex_running,
        timestamp,
        emit_events,
    ));
    events
}

/// Whether the file of a session is looked at again: always where it is
/// not yet known; else where it has changed, or the state of its session
/// changes with time.
pub fn should_refresh(
    cached: Option<(i64, u64, CodexMonitorState)>,
    modified: i64,
    size: u64,
) -> (r: bool)
    ensures
        r == (match cached {
            Some((m, s, state)) => m != modified || s != size || is_busy(state) || state
                == CodexMonitorState::Completed,
            None => true,
        }),
{
    match cached {
        Some((m, s, state)) => m != modified || s != size || requires_time_based_refresh(&state),
        None => true,
    }
}

/// Whether the file of a session is passed over: it is not known yet, and
/// it was changed last before the time from which files count as recent.
pub fn is_stale(modified: i64, now_ms: i64, is_cached: bool) -> (r: bool)
    ensures
        r == (!is_cached && modified > 0 && modified < now_ms - RECENT_FILE_WINDOW_MS),
{
    if is_cached || modified <= 0 {
        return false;
    }
    match now_ms.checked_sub(RECENT_FILE_WINDOW_MS) {
        Some(threshold) => modified < threshold,
        None => false,
    }
}

/// The state of a session that seemed to work, once it is known whether
/// the agent holds its file open: a session whose file nobody holds does
/// not work.
pub fn settle_working(
    state: CodexMonitorState,
    open_by_codex: Option<bool>,
    process_running: bool,
) -> (r: CodexMonitorState)
    ensures
        r == (if state == CodexMonitorState::Working && open_by_codex == Some(false) {
            if process_running {
                CodexMonitorState::Idle
            } else {
                CodexMonitorState::Offline
            }
        } else {
            state
        }),
{
    let working = match state {
        CodexMonitorState::Working => true,
        _ => false,
    };
    let closed = match open_by_codex {
        Some(open) => !open,
        None => false,
    };
    if working && closed {
        if process_running {
            CodexMonitorState::Idle
        } else {
            CodexMonitorState::Offline
        }
    } else {
        state
    }
}

/// Whether `lsof` said on standard error that the file is not there.
pub open spec fn says_no_file(stderr: Seq<char>) -> bool {
    contains(ascii_lowercase(stderr), "no such file"@) || contains(
        ascii_lowercase(stderr),
        "no such file or directory"@,
    ) || contains(ascii_lowercase(stderr), "status error"@)
}

/// Whether the agent holds a file open, from what `lsof` printed: nobody
/// holds a file of which `lsof` prints nothing, or says that it is not
/// there; of any other complaint nothing follows.
pub fn codex_rollout_file_open_by_codex(stdout: &str, stderr: &str) -> (r: Option<bool>)
    ensures
        r == (if trim(stdout@).len() > 0 {
            Some(any_names_codex(lines(stdout@)))
        } else if trim(stderr@).len() == 0 || says_no_file(stderr@) {
            Some(false)
        } else {
            None
        }),
{
    let out_chars = chars_of(stdout);
    if trim_slice(out_chars.as_slice()).len() > 0 {
        return Some(lsof_stdout_indicates_codex_open(stdout));
    }
    let err_chars = chars_of(stderr);
    if trim_slice(err_chars.as_slice()).len() == 0 {
        return Some(false);
    }
    let lower = to_ascii_lowercase(err_chars.as_slice());
    if crate::text::contains_text(lower.as_slice(), "no such file") || crate::text::contains_text(
        lower.as_slice(),
        "no such file or directory",
    ) || crate::text::contains_text(lower.as_slice(), "status error") {
        return Some(false);
    }
    None
}

/// Whether a process of this name is the agent.
pub fn is_codex_process(name: &str) -> (r: bool)
    ensures
        r == (ascii_lowercase(name@) == "codex"@ || ascii_lowercase(name@) == "codex.exe"@),
{
    let chars = chars_of(name);
    let lower = to_ascii_lowercase(chars.as_slice());
    is_text(lower.as_slice(), "codex") || is_text(lower.as_slice(), "codex.exe")
}

/// The lines of a log that are read: those that are not blank, and of
/// those the last `max_lines`.
pub open spec fn kept_lines(rows: Seq<Seq<char>>, max_lines: nat) -> Seq<Seq<char>> {
    let filled = filled_rows(rows);
    if filled.len() > max_lines {
        filled.subrange(filled.len() - max_lines, filled.len() as int)
    } else {
        filled
    }
}

pub open spec fn filled_rows(rows: Seq<Seq<char>>) -> Seq<Seq<char>>
    decreases rows.len(),
{
    if rows.len() == 0 {
        seq![]
    } else if trim(rows.last()).len() == 0 {
        filled_rows(rows.drop_last())
    } else {
        filled_rows(rows.drop_last()).push(rows.last())
    }
}

pub open spec fn texts(items: Seq<String>) -> Seq<Seq<char>> {
    Seq::new(items.len(), |i: int| items[i]@)
}

/// The lines at the end of a log, from the text that was read from its
/// end. Where the text does not begin at the beginning of the log, its
/// first line is cut and is left out.
pub fn read_tail_lines(text: &str, from_start: bool, max_lines: usize) -> (r: Vec<String>)
    ensures
        texts(r@) == kept_lines(
            if from_start {
                crate::fields::fields(text@, '\n')
            } else {
                crate::fields::fields(text@, '\n').drop_first()
            },
            max_lines as nat,
        ),
{
    let chars = chars_of(text);
    let parts = crate::fields::split_on(chars.as_slice(), '\n');
    let start: usize = if from_start {
        0
    } else {
        1
    };
    let ghost all = if from_start {
        crate::fields::fields(text@, '\n')
    } else {
        crate::fields::fields(text@, '\n').drop_first()
    };
    assert(all =~= rows(parts@).subrange(start as int, parts@.len() as int));
    let mut kept: Vec<String> = Vec::new();
    let mut i: usize = start;
    assert(texts(kept@) =~= filled_rows(all.subrange(0, 0)));
    while i < parts.len()
        invariant
            start <= i <= parts.len(),
            all == rows(parts@).subrange(start as int, parts@.len() as int),
            texts(kept@) == filled_rows(all.subrange(0, i - start)),
        decreases parts.len() - i,
    {
        let ghost after = all.subrange(0, i + 1 - start);
        assert(after.drop_last() =~= all.subrange(0, i - start));
        assert(after.last() == parts@[i as int]@);
        if trim_slice(parts[i].as_slice()).len() > 0 {
            let ghost before = texts(kept@);
            kept.push(string_of(parts[i].as_slice()));
            assert(texts(kept@) =~= before.push(parts@[i as int]@));
        }
        i += 1;
    }
    assert(all.subrange(0, all.len() as int) =~= all);
    if kept.len() > max_lines {
        let ghost full = texts(kept@);
        let cut = kept.len() - max_lines;
        let tail = kept.split_off(cut);
        assert(texts(tail@) =~= full.subrange(cut as int, full.len() as int));
        return tail;
    }
    kept
}

/// How much of the end of a log is read.
pub fn initial_tail_bytes(initial_bytes: u64, size: u64) -> (r: u64)
    ensures
        r == (if initial_bytes < size {
            if initial_bytes < 1024 {
                1024u64
            } else {
                initial_bytes
            }
        } else if size < 1024 {
            1024u64
        } else {
            size
        }),
{
    let least = if initial_bytes < size {
        initial_bytes
    } else {
        size
    };
    if least < 1024 {
        1024
    } else {
        least
    }
}

/// How much of the end of a log is read next, where what was read held no
/// line: twice as much, up to the whole log and up to the cap; nothing
/// more where a line was found or the whole log, or the cap, was reached.
pub fn next_tail_bytes(found_lines: bool, bytes: u64, size: u64, max_bytes_cap: u64) -> (r: Option<
    u64,
>)
    ensures
        r == (if found_lines || bytes >= size || bytes >= max_bytes_cap {
            None
        } else {
            let doubled = if bytes * 2 > u64::MAX {
                u64::MAX as int
            } else {
                bytes * 2
            };
            let within_size = if doubled < size {
                doubled
            } else {
                size as int
            };
            Some(
                (if within_size < max_bytes_cap {
                    within_size
                } else {
                    max_bytes_cap as int
                }) as u64,
            )
        }),
{
    if found_lines || bytes >= size || bytes >= max_bytes_cap {
        return None;
    }
    let doubled = if bytes > u64::MAX / 2 {
        u64::MAX
    } else {
        bytes * 2
    };
    let within_size = if doubled < size {
        doubled
    } else {
        size
    };
    Some(if within_size < max_bytes_cap {
        within_size
    } else {
        max_bytes_cap
    })
}

/// Where a read begins that takes in the last `max_bytes` bytes of a log:
/// one byte earlier than they begin, so that the line that the read cuts
/// is known to be cut.
pub fn tail_read_start(size: u64, max_bytes: u64) -> (r: u64)
    ensures
        r == (if size > max_bytes {
            size - max_bytes - 1
        } else {
            0
        }),
{
    if size > max_bytes {
        size - max_bytes - 1
    } else {
        0
    }
}

/// The directories of a day's logs below the directory of the sessions:
/// the year in four digits, the month and the day in two.
pub fn build_date_dir(year: u16, month: u8, day: u8) -> (r: (String, String, String))
    ensures
        r.0@ == padded(year as nat, 4),
        r.1@ == padded(month as nat, 2),
        r.2@ == padded(day as nat, 2),
{
    (pad_number(year as u64, 4), pad_number(month as u64, 2), pad_number(day as u64, 2))
}

/// A number in decimal, with zeros in front up to `width` digits.
pub open spec fn padded(n: nat, width: nat) -> Seq<char> {
    let digits = crate::fields::digits_of(n);
    if digits.len() >= width {
        digits
    } else {
        Seq::new((width - digits.len()) as nat, |i: int| '0') + digits
    }
}

fn pad_number(n: u64, width: usize) -> (r: String)
    ensures
        r@ == padded(n as nat, width as nat),
{
    let digits = crate::fields::unsigned_chars(n);
    let mut out: Vec<char> = Vec::new();
    if digits.len() < width {
        let missing = width - digits.len();
        let mut i: usize = 0;
        while i < missing
            invariant
                i <= missing,
                out@ == Seq::new(i as nat, |k: int| '0'),
            decreases missing - i,
        {
            out.push('0');
            i += 1;
            assert(out@ =~= Seq::new(i as nat, |k: int| '0'));
        }
    }
    crate::text::push_chars(&mut out, digits.as_slice());
    assert(out@ =~= padded(n as nat, width as nat));
    string_of(out.as_slice())
}

} // verus!
