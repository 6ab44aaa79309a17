//! Response-block tracker: tells the unsolicited event stream from the lines
//! that answer the command in flight.

use crate::protocol::{
    framing_line, lemma_framing_line_names_block,
    blank_state, block_of, classify, classify_line, exit_reason, new_state_payload, opt_text,
    parse_exit_reason, parse_response_block, BlockView, ControlLine, LineView, ResponseBlock,
    StateView, TmuxStatePayload,
};
use crate::text::{
    chars_of, has_prefix, is_word, push_chars, starts_with, string_of, text_of,
};
use vstd::prelude::*;

verus! {

/// Where the tracker stands.
#[derive(Debug, Clone, Copy, PartialEq, Eq)]
pub enum ControlModeState {
    /// Nothing on the channel is trusted yet, or any more: lines are
    /// dropped until a response begins or the channel exits.
    Recovery,
    /// No response is open: lines are events.
    Idle,
    /// A response is open: lines are its content until its end arrives.
    InResponse,
    /// The channel has exited.
    Exiting,
}

/// How a command ended.
#[derive(Debug, Clone, PartialEq, Eq)]
pub enum ControlCommandResult {
    Success { output: String },
    Error { message: String, output: String },
}

pub enum ResultView {
    Success { output: Seq<char> },
    Error { message: Seq<char>, output: Seq<char> },
}

impl View for ControlCommandResult {
    type V = ResultView;

    open spec fn view(&self) -> ResultView {
        match self {
            ControlCommandResult::Success { output } => ResultView::Success { output: output@ },
            ControlCommandResult::Error { message, output } => ResultView::Error {
                message: message@,
                output: output@,
            },
        }
    }
}

/// Pane output on its way to the event sink.
#[derive(Debug, Clone, PartialEq, Eq)]
pub struct TmuxOutputPayload {
    pub session_id: String,
    pub pane_id: String,
    pub data: String,
}

pub struct OutputView {
    pub session_id: Seq<char>,
    pub pane_id: Seq<char>,
    pub data: Seq<char>,
}

impl View for TmuxOutputPayload {
    type V = OutputView;

    open spec fn view(&self) -> OutputView {
        OutputView { session_id: self.session_id@, pane_id: self.pane_id@, data: self.data@ }
    }
}

/// The texts of a list of strings.
pub open spec fn texts(lines: Seq<String>) -> Seq<Seq<char>> {
    Seq::new(lines.len(), |i: int| lines[i]@)
}

/// The lines joined by line feeds, with none after the last.
pub open spec fn joined_lines(lines: Seq<Seq<char>>) -> Seq<char>
    decreases lines.len(),
{
    if lines.len() == 0 {
        seq![]
    } else if lines.len() == 1 {
        lines[0]
    } else {
        joined_lines(lines.drop_last()) + seq!['\n'] + lines.last()
    }
}

/// The tracker's state. `T` is whatever wakes the caller that waits for the
/// command in flight; the tracker only keeps it and hands it back.
pub struct ControlParserState<T> {
    pub mode: ControlModeState,
    pub recovery_pending: bool,
    pub current_response: Option<ResponseBlock>,
    pub response_output: Vec<String>,
    pub pending_completion: Option<T>,
}

pub struct ParserView<T> {
    pub mode: ControlModeState,
    pub recovery_pending: bool,
    pub current_response: Option<BlockView>,
    pub response_output: Seq<Seq<char>>,
    pub pending_completion: Option<T>,
}

pub open spec fn opt_block(o: Option<ResponseBlock>) -> Option<BlockView> {
    match o {
        Some(b) => Some(b@),
        None => None,
    }
}

impl<T> View for ControlParserState<T> {
    type V = ParserView<T>;

    open spec fn view(&self) -> ParserView<T> {
        ParserView {
            mode: self.mode,
            recovery_pending: self.recovery_pending,
            current_response: opt_block(self.current_response),
            response_output: texts(self.response_output@),
            pending_completion: self.pending_completion,
        }
    }
}

/// What holds of the tracker between any two calls: a block is remembered
/// exactly while a response is open, only an open response has buffered
/// lines, and the recovery flag is set exactly in recovery.
pub open spec fn well_formed<T>(s: ParserView<T>) -> bool {
    &&& s.current_response is Some <==> s.mode == ControlModeState::InResponse
    &&& s.recovery_pending <==> s.mode == ControlModeState::Recovery
    &&& s.mode != ControlModeState::InResponse ==> s.response_output.len() == 0
}

/// What handling one line asks the caller to do.
pub struct LineOutcome<T> {
    /// Pane output to emit.
    pub output: Option<TmuxOutputPayload>,
    /// A state change to emit.
    pub state: Option<TmuxStatePayload>,
    /// Whom to wake, where a command was waiting.
    pub completion_tx: Option<T>,
    /// What to tell them.
    pub completion_result: Option<ControlCommandResult>,
    /// Whether the channel is to be marked dead.
    pub should_exit: bool,
}

pub struct OutcomeView<T> {
    pub output: Option<OutputView>,
    pub state: Option<StateView>,
    pub completion_tx: Option<T>,
    pub completion_result: Option<ResultView>,
    pub should_exit: bool,
}

pub open spec fn opt_output(o: Option<TmuxOutputPayload>) -> Option<OutputView> {
    match o {
        Some(p) => Some(p@),
        None => None,
    }
}

pub open spec fn opt_state(o: Option<TmuxStatePayload>) -> Option<StateView> {
    match o {
        Some(p) => Some(p@),
        None => None,
    }
}

pub open spec fn opt_result(o: Option<ControlCommandResult>) -> Option<ResultView> {
    match o {
        Some(p) => Some(p@),
        None => None,
    }
}

impl<T> View for LineOutcome<T> {
    type V = OutcomeView<T>;

    open spec fn view(&self) -> OutcomeView<T> {
        OutcomeView {
            output: opt_output(self.output),
            state: opt_state(self.state),
            completion_tx: self.completion_tx,
            completion_result: opt_result(self.completion_result),
            should_exit: self.should_exit,
        }
    }
}

/// Nothing to do.
pub open spec fn nothing<T>() -> OutcomeView<T> {
    OutcomeView {
        output: None,
        state: None,
        completion_tx: None,
        completion_result: None,
        should_exit: false,
    }
}

pub open spec fn exited_message() -> Seq<char> {
    "控制通道已退出"@
}

pub open spec fn failed_prefix() -> Seq<char> {
    "控制命令失败: "@
}

pub open spec fn timeout_message() -> Seq<char> {
    "控制命令超时"@
}

pub open spec fn overwritten_message() -> Seq<char> {
    "控制命令被覆盖"@
}

/// The result that ends a command whose terminating line is `line`.
pub open spec fn finished(is_error: bool, line: Seq<char>, output: Seq<char>) -> ResultView {
    if is_error {
        ResultView::Error { message: failed_prefix() + line, output }
    } else {
        ResultView::Success { output }
    }
}

/// The channel exits: what was buffered becomes a partial result, whoever
/// waits is told so, and the event sink learns of the exit.
pub open spec fn on_exit<T>(s: ParserView<T>, reason: Option<Seq<char>>) -> (
    ParserView<T>,
    OutcomeView<T>,
) {
    (
        ParserView {
            mode: ControlModeState::Exiting,
            recovery_pending: false,
            current_response: None,
            response_output: seq![],
            pending_completion: None,
        },
        OutcomeView {
            output: None,
            state: Some(StateView { reason, ..blank_state("client-exit"@) }),
            completion_tx: s.pending_completion,
            completion_result: Some(
                ResultView::Error {
                    message: exited_message(),
                    output: joined_lines(s.response_output),
                },
            ),
            should_exit: true,
        },
    )
}

/// The command in flight ends: what was buffered is its output.
pub open spec fn on_end<T>(s: ParserView<T>, is_error: bool, line: Seq<char>) -> (
    ParserView<T>,
    OutcomeView<T>,
) {
    (
        ParserView {
            mode: ControlModeState::Idle,
            recovery_pending: false,
            current_response: None,
            response_output: seq![],
            pending_completion: None,
        },
        OutcomeView {
            output: None,
            state: None,
            completion_tx: s.pending_completion,
            completion_result: Some(finished(is_error, line, joined_lines(s.response_output))),
            should_exit: false,
        },
    )
}

/// The line is content of the open response.
pub open spec fn on_content<T>(s: ParserView<T>, line: Seq<char>) -> (
    ParserView<T>,
    OutcomeView<T>,
) {
    (ParserView { response_output: s.response_output.push(line), ..s }, nothing())
}

/// Whether `line` ends the open response: an `%end` or `%error` that names
/// the same block. None that names another block does.
pub open spec fn ends_block(line: Seq<char>, open: Option<BlockView>) -> bool {
    (has_prefix(line, "%end "@) || has_prefix(line, "%error "@)) && open is Some && block_of(line)
        == open
}

/// One line while a response is open.
pub open spec fn step_in_response<T>(s: ParserView<T>, line: Seq<char>) -> (
    ParserView<T>,
    OutcomeView<T>,
)
{
    if has_prefix(line, "%exit"@) {
        on_exit(s, exit_reason(line))
    } else if ends_block(line, s.current_response) {
        on_end(s, has_prefix(line, "%error "@), line)
    } else {
        on_content(s, line)
    }
}

/// One line while no response is open.
pub open spec fn step_idle<T>(s: ParserView<T>, line: Seq<char>, session_id: Seq<char>) -> (
    ParserView<T>,
    OutcomeView<T>,
) {
    if line.len() == 0 {
        (s, nothing())
    } else {
        match classify(line) {
            LineView::Output { pane_id, data } => (
                s,
                OutcomeView {
                    output: Some(OutputView { session_id, pane_id, data }),
                    ..nothing()
                },
            ),
            LineView::State { payload } => (s, OutcomeView { state: Some(payload), ..nothing() }),
            LineView::Begin { block } => (
                ParserView {
                    mode: ControlModeState::InResponse,
                    current_response: Some(block),
                    response_output: seq![],
                    ..s
                },
                nothing(),
            ),
            LineView::End { block, is_error } => on_end(s, is_error, line),
            LineView::Exit { reason } => on_exit(s, reason),
            LineView::Unknown => (s, nothing()),
        }
    }
}

/// Whether `line` is a point at which a channel in recovery is in step
/// again: the beginning of a response, or the exit.
pub open spec fn resynchronizes(line: Seq<char>) -> bool {
    has_prefix(line, "%begin "@) || has_prefix(line, "%exit"@)
}

/// The tracker's transition function: the state after `line`, and what the
/// caller is to do about it.
pub open spec fn step<T>(s: ParserView<T>, line: Seq<char>, session_id: Seq<char>) -> (
    ParserView<T>,
    OutcomeView<T>,
) {
    match s.mode {
        ControlModeState::Exiting => (s, nothing()),
        ControlModeState::Recovery => if resynchronizes(line) {
            step_idle(
                ParserView { mode: ControlModeState::Idle, recovery_pending: false, ..s },
                line,
                session_id,
            )
        } else {
            (s, nothing())
        },
        ControlModeState::InResponse => step_in_response(s, line),
        ControlModeState::Idle => step_idle(s, line, session_id),
    }
}

/// The buffered lines as one text, joined by line feeds.
pub fn join_lines(lines: &Vec<String>) -> (out: String)
    ensures
        out@ == joined_lines(texts(lines@)),
{
    let mut acc: Vec<char> = Vec::new();
    let mut i: usize = 0;
    while i < lines.len()
        invariant
            i <= lines.len(),
            acc@ == joined_lines(texts(lines@.subrange(0, i as int))),
        decreases lines.len() - i,
    {
        let ghost before = texts(lines@.subrange(0, i as int));
        let ghost after = texts(lines@.subrange(0, i + 1));
        assert(after.drop_last() =~= before);
        assert(after.last() == lines@[i as int]@);
        if i > 0 {
            acc.push('\n');
        }
        let line = chars_of(lines[i].as_str());
        push_chars(&mut acc, line.as_slice());
        assert(acc@ =~= joined_lines(after));
        i += 1;
    }
    assert(lines@.subrange(0, lines@.len() as int) =~= lines@);
    string_of(acc.as_slice())
}

/// Takes the buffered response lines out of the state, as one text.
pub fn take_response_output<T>(state: &mut ControlParserState<T>) -> (output: String)
    ensures
        output@ == joined_lines(old(state)@.response_output),
        final(state)@ == (ParserView { response_output: seq![], ..old(state)@ }),
{
    if state.response_output.len() == 0 {
        assert(state@.response_output =~= seq![]);
        return String::new();
    }
    let output = join_lines(&state.response_output);
    state.response_output.clear();
    assert(state@.response_output =~= seq![]);
    output
}

fn quiet<T>() -> (r: LineOutcome<T>)
    ensures
        r@ == nothing::<T>(),
{
    LineOutcome {
        output: None,
        state: None,
        completion_tx: None,
        completion_result: None,
        should_exit: false,
    }
}

fn finish_exit<T>(state: &mut ControlParserState<T>, reason: Option<String>) -> (r: LineOutcome<T>)
    ensures
        (final(state)@, r@) == on_exit(old(state)@, opt_text(reason)),
{
    let output = take_response_output(state);
    state.mode = ControlModeState::Exiting;
    state.recovery_pending = false;
    state.current_response = None;
    let completion_tx = state.pending_completion.take();
    let mut payload = new_state_payload("client-exit");
    payload.reason = reason;
    LineOutcome {
        output: None,
        state: Some(payload),
        completion_tx,
        completion_result: Some(
            ControlCommandResult::Error { message: text_of("控制通道已退出"), output },
        ),
        should_exit: true,
    }
}

fn finish_command<T>(state: &mut ControlParserState<T>, is_error: bool, line: &[char]) -> (r:
    LineOutcome<T>)
    ensures
        (final(state)@, r@) == on_end(old(state)@, is_error, line@),
{
    let output = take_response_output(state);
    state.mode = ControlModeState::Idle;
    state.recovery_pending = false;
    state.current_response = None;
    let completion_tx = state.pending_completion.take();
    let result = if is_error {
        let mut message = chars_of("控制命令失败: ");
        push_chars(&mut message, line);
        ControlCommandResult::Error { message: string_of(message.as_slice()), output }
    } else {
        ControlCommandResult::Success { output }
    };
    LineOutcome {
        output: None,
        state: None,
        completion_tx,
        completion_result: Some(result),
        should_exit: false,
    }
}

fn keep_content<T>(state: &mut ControlParserState<T>, line: &[char]) -> (r: LineOutcome<T>)
    ensures
        (final(state)@, r@) == on_content(old(state)@, line@),
{
    state.response_output.push(string_of(line));
    assert(state@.response_output =~= old(state)@.response_output.push(line@));
    quiet()
}

fn ends_open_block<T>(state: &ControlParserState<T>, line: &[char]) -> (r: bool)
    ensures
        r == ends_block(line@, state@.current_response),
{
    if !(starts_with(line, "%end ") || starts_with(line, "%error ")) {
        return false;
    }
    match (&state.current_response, parse_response_block(line)) {
        (Some(open), Some(block)) => open.same_as(&block),
        _ => false,
    }
}

fn handle_in_response<T>(state: &mut ControlParserState<T>, line: &[char]) -> (r: LineOutcome<T>)
    ensures
        (final(state)@, r@) == step_in_response(old(state)@, line@),
{
    if starts_with(line, "%exit") {
        let reason = parse_exit_reason(line);
        finish_exit(state, reason)
    } else if ends_open_block(state, line) {
        let is_error = starts_with(line, "%error ");
        finish_command(state, is_error, line)
    } else {
        keep_content(state, line)
    }
}

fn handle_idle<T>(state: &mut ControlParserState<T>, line: &[char], session_id: &str) -> (r:
    LineOutcome<T>)
    ensures
        (final(state)@, r@) == step_idle(old(state)@, line@, session_id@),
{
    if line.len() == 0 {
        return quiet();
    }
    match classify_line(line) {
        ControlLine::Output { pane_id, data } => {
            let mut outcome = quiet();
            outcome.output = Some(
                TmuxOutputPayload { session_id: text_of(session_id), pane_id, data },
            );
            outcome
        },
        ControlLine::State { payload } => {
            let mut outcome = quiet();
            outcome.state = Some(payload);
            outcome
        },
        ControlLine::Begin { block } => {
            state.current_response = Some(block);
            state.response_output.clear();
            state.mode = ControlModeState::InResponse;
            assert(state@.response_output =~= seq![]);
            quiet()
        },
        ControlLine::End { block, is_error } => finish_command(state, is_error, line),
        ControlLine::Exit { reason } => finish_exit(state, reason),
        ControlLine::Unknown => quiet(),
    }
}

impl<T> ControlParserState<T> {
    /// A tracker for a channel that has just been opened: in recovery, since
    /// the multiplexer may greet with a banner or stale output.
    pub fn new() -> (state: Self)
        ensures
            state@ == (ParserView::<T> {
                mode: ControlModeState::Recovery,
                recovery_pending: true,
                current_response: None,
                response_output: seq![],
                pending_completion: None,
            }),
            well_formed(state@),
    {
        let state = ControlParserState {
            mode: ControlModeState::Recovery,
            recovery_pending: true,
            current_response: None,
            response_output: Vec::new(),
            pending_completion: None,
        };
        assert(state@.response_output =~= seq![]);
        state
    }
}

/// Handles one line of the control stream: `session_id` names the session
/// that the channel belongs to. What comes back is for the caller to carry
/// out once it has let go of the state.
pub fn handle_tmux_line<T>(state: &mut ControlParserState<T>, line: &str, session_id: &str) -> (r:
    LineOutcome<T>)
    ensures
        (final(state)@, r@) == step(old(state)@, line@, session_id@),
        well_formed(old(state)@) ==> well_formed(final(state)@),
{
    let chars = chars_of(line);
    match state.mode {
        ControlModeState::Exiting => quiet(),
        ControlModeState::Recovery => {
            if starts_with(chars.as_slice(), "%begin ") || starts_with(chars.as_slice(), "%exit") {
                state.mode = ControlModeState::Idle;
                state.recovery_pending = false;
                handle_idle(state, chars.as_slice(), session_id)
            } else {
                quiet()
            }
        },
        ControlModeState::InResponse => handle_in_response(state, chars.as_slice()),
        ControlModeState::Idle => handle_idle(state, chars.as_slice(), session_id),
    }
}

/// The state after a command was accepted: the new waiter is installed, and
/// no response is open yet. A channel in recovery stays there until the
/// response begins.
pub open spec fn prepared<T>(s: ParserView<T>, completion: T) -> ParserView<T> {
    ParserView {
        mode: if s.mode == ControlModeState::InResponse {
            ControlModeState::Idle
        } else {
            s.mode
        },
        recovery_pending: s.recovery_pending,
        current_response: None,
        response_output: seq![],
        pending_completion: Some(completion),
    }
}

/// The state of a channel whose framing is no longer trusted.
pub open spec fn recovering<T>() -> ParserView<T> {
    ParserView {
        mode: ControlModeState::Recovery,
        recovery_pending: true,
        current_response: None,
        response_output: seq![],
        pending_completion: None,
    }
}

/// What a waiter is told whose command was displaced by a later one.
pub fn overwritten_result() -> (r: ControlCommandResult)
    ensures
        r@ == (ResultView::Error { message: overwritten_message(), output: seq![] }),
{
    ControlCommandResult::Error { message: text_of("控制命令被覆盖"), output: String::new() }
}

/// Makes the tracker ready for a command that is about to be written:
/// `completion` will be handed back with the command's result. A channel
/// that has exited accepts no command and gives `completion` back at once.
/// Otherwise the waiter of an earlier command that is still uncollected
/// comes back; it is owed `overwritten_result`.
pub fn prepare_command_completion<T>(state: &mut ControlParserState<T>, completion: T) -> (r:
    Result<Option<T>, T>)
    ensures
        old(state)@.mode == ControlModeState::Exiting ==> r == Err::<Option<T>, T>(completion)
            && final(state)@ == old(state)@,
        old(state)@.mode != ControlModeState::Exiting ==> r == Ok::<Option<T>, T>(
            old(state)@.pending_completion,
        ) && final(state)@ == prepared(old(state)@, completion),
        well_formed(old(state)@) ==> well_formed(final(state)@),
{
    match state.mode {
        ControlModeState::Exiting => {
            return Err(completion);
        },
        ControlModeState::InResponse => {
            state.mode = ControlModeState::Idle;
        },
        _ => {},
    }
    let previous = state.pending_completion.take();
    state.pending_completion = Some(completion);
    state.current_response = None;
    state.response_output.clear();
    assert(state@.response_output =~= seq![]);
    Ok(previous)
}

/// Settles a command once the wait for its completion is over. `received`
/// is what arrived within the time allowed, if anything did. Where nothing
/// did, the framing is presumed lost: the channel goes into recovery and the
/// command fails with what had been buffered for it.
pub fn wait_for_command_completion<T>(
    state: &mut ControlParserState<T>,
    received: Option<ControlCommandResult>,
) -> (r: ControlCommandResult)
    ensures
        match received {
            Some(result) => r == result && final(state)@ == old(state)@,
            None => r@ == (ResultView::Error {
                message: timeout_message(),
                output: joined_lines(old(state)@.response_output),
            }) && final(state)@ == recovering::<T>(),
        },
        well_formed(old(state)@) ==> well_formed(final(state)@),
{
    match received {
        Some(result) => result,
        None => {
            let output = take_response_output(state);
            state.pending_completion = None;
            state.current_response = None;
            state.mode = ControlModeState::Recovery;
            state.recovery_pending = true;
            ControlCommandResult::Error { message: text_of("控制命令超时"), output }
        },
    }
}

/// Settles a command that could not be written to the channel: the channel
/// goes into recovery and the command fails with `message`.
pub fn fail_command_write<T>(state: &mut ControlParserState<T>, message: String) -> (r:
    ControlCommandResult)
    ensures
        r@ == (ResultView::Error { message: message@, output: seq![] }),
        final(state)@ == recovering::<T>(),
        well_formed(final(state)@),
{
    state.pending_completion = None;
    state.current_response = None;
    state.response_output.clear();
    state.mode = ControlModeState::Recovery;
    state.recovery_pending = true;
    assert(state@.response_output =~= seq![]);
    ControlCommandResult::Error { message, output: String::new() }
}

/// Whether a result is the failure by timeout, after which the channel is to
/// be marked unhealthy.
pub fn is_timeout(result: &ControlCommandResult) -> (r: bool)
    ensures
        r == (result@ is Error && result@->message == timeout_message()),
{
    match result {
        ControlCommandResult::Error { message, output: _ } => {
            let expected = text_of("控制命令超时");
            *message == expected
        },
        ControlCommandResult::Success { output: _ } => false,
    }
}

proof fn lemma_end_is_not_exit(line: Seq<char>)
    requires
        has_prefix(line, "%end "@) || has_prefix(line, "%error "@) || has_prefix(line, "%begin "@),
    ensures
        !has_prefix(line, "%exit"@),
        has_prefix(line, "%end "@) ==> !has_prefix(line, "%error "@),
{
    reveal_strlit("%end ");
    reveal_strlit("%error ");
    reveal_strlit("%begin ");
    reveal_strlit("%exit");
    if has_prefix(line, "%exit"@) {
        assert(line.subrange(0, 5)[1] == 'e');
        assert(line.subrange(0, 5)[2] == 'x');
        if has_prefix(line, "%end "@) {
            assert(line.subrange(0, 5)[2] == 'n');
        } else if has_prefix(line, "%error "@) {
            assert(line.subrange(0, 7)[2] == 'r');
        } else {
            assert(line.subrange(0, 7)[1] == 'b');
        }
    }
    if has_prefix(line, "%end "@) && has_prefix(line, "%error "@) {
        assert(line.subrange(0, 5)[2] == 'n');
        assert(line.subrange(0, 7)[2] == 'r');
    }
}

/// The tracker keeps itself well formed, whatever the line.
pub proof fn lemma_step_keeps_well_formed<T>(
    s: ParserView<T>,
    line: Seq<char>,
    session_id: Seq<char>,
)
    requires
        well_formed(s),
    ensures
        well_formed(step(s, line, session_id).0),
{
}

/// A response that begins and ends at once is an empty success: with no
/// line between the `%begin` and the `%end` of one block, the waiter gets a
/// successful result without output, and the channel is idle again.
pub proof fn lemma_empty_response<T>(
    s: ParserView<T>,
    begin: Seq<char>,
    end: Seq<char>,
    block: BlockView,
    session_id: Seq<char>,
)
    requires
        well_formed(s),
        s.mode == ControlModeState::Idle || s.mode == ControlModeState::Recovery,
        has_prefix(begin, "%begin "@),
        block_of(begin) == Some(block),
        has_prefix(end, "%end "@),
        block_of(end) == Some(block),
    ensures
        ({
            let (opened, first) = step(s, begin, session_id);
            let (closed, second) = step(opened, end, session_id);
            &&& first == nothing::<T>()
            &&& opened.mode == ControlModeState::InResponse
            &&& second.completion_tx == s.pending_completion
            &&& second.completion_result == Some(ResultView::Success { output: seq![] })
            &&& closed.mode == ControlModeState::Idle
            &&& closed.response_output.len() == 0
        }),
{
    lemma_begin_classifies(begin);
    lemma_end_is_not_exit(end);
    reveal_strlit("%begin ");
    assert(begin.len() > 0);
    let opened = step(s, begin, session_id).0;
    let first = step(s, begin, session_id).1;
    assert(resynchronizes(begin));
    assert(first == nothing::<T>());
    assert(opened.mode == ControlModeState::InResponse);
    assert(opened.current_response == Some(block));
    assert(opened.response_output =~= seq![]);
    let closed = step(opened, end, session_id).0;
    let second = step(opened, end, session_id).1;
    assert(ends_block(end, opened.current_response));
    assert(second.completion_tx == s.pending_completion);
    assert(joined_lines(opened.response_output) =~= seq![]);
    assert(second.completion_result == Some(ResultView::Success { output: seq![] }));
}

/// A line that starts with `%begin ` and names a block is classified as the
/// beginning of that block.
pub proof fn lemma_begin_classifies(line: Seq<char>)
    requires
        has_prefix(line, "%begin "@),
        block_of(line) is Some,
    ensures
        classify(line) == (LineView::Begin { block: block_of(line)->0 }),
{
    reveal_strlit("%begin ");
    assert(line.subrange(0, 7)[1] == 'b');
    assert forall|p: Seq<char>| p.len() >= 2 && p[1] != 'b' implies !#[trigger] has_prefix(
        line,
        p,
    ) by {
        if has_prefix(line, p) {
            assert(line.subrange(0, p.len() as int)[1] == p[1]);
        }
    }
    lemma_prefixes_differ_from_begin(line);
}

proof fn lemma_prefixes_differ_from_begin(line: Seq<char>)
    requires
        line.len() >= 2,
        line[1] == 'b',
    ensures
        crate::protocol::classify_output(line) is None,
        crate::protocol::classify_window(line) is None,
        crate::protocol::classify_session(line) is None,
        crate::protocol::classify_pane(line) is None,
{
    assert forall|p: Seq<char>| p.len() >= 2 && p[1] != 'b' implies !#[trigger] has_prefix(
        line,
        p,
    ) by {
        if has_prefix(line, p) {
            assert(line.subrange(0, p.len() as int)[1] == p[1]);
        }
    }
    reveal_strlit("%output ");
    reveal_strlit("%extended-output ");
    reveal_strlit("%layout-change ");
    reveal_strlit("%window-pane-changed ");
    reveal_strlit("%window-add ");
    reveal_strlit("%window-close ");
    reveal_strlit("%window-renamed ");
    reveal_strlit("%unlinked-window-add ");
    reveal_strlit("%unlinked-window-close ");
    reveal_strlit("%unlinked-window-renamed ");
    reveal_strlit("%session-changed ");
    reveal_strlit("%client-session-changed ");
    reveal_strlit("%session-renamed ");
    reveal_strlit("%session-window-changed ");
    reveal_strlit("%sessions-changed");
    reveal_strlit("%client-detached ");
    reveal_strlit("%pane-mode-changed ");
    reveal_strlit("%pause ");
    reveal_strlit("%continue ");
    reveal_strlit("%paste-buffer-changed ");
    reveal_strlit("%paste-buffer-deleted ");
    reveal_strlit("%message ");
    reveal_strlit("%config-error ");
    reveal_strlit("%subscription-changed ");
}

/// A line inside a response that looks like the end of another response is
/// content. After `%begin A`, a line that reads as `%end B` or `%error B`
/// with `B` not `A` ends nothing: it is buffered, and the `%end A` that
/// follows delivers it as the command's output.
pub proof fn lemma_foreign_end_is_content<T>(
    s: ParserView<T>,
    begin: Seq<char>,
    fake: Seq<char>,
    end: Seq<char>,
    block: BlockView,
    other: BlockView,
    session_id: Seq<char>,
)
    requires
        well_formed(s),
        s.mode == ControlModeState::Idle || s.mode == ControlModeState::Recovery,
        has_prefix(begin, "%begin "@),
        block_of(begin) == Some(block),
        has_prefix(fake, "%end "@) || has_prefix(fake, "%error "@),
        block_of(fake) == Some(other),
        other != block,
        has_prefix(end, "%end "@),
        block_of(end) == Some(block),
    ensures
        ({
            let (opened, first) = step(s, begin, session_id);
            let (held, second) = step(opened, fake, session_id);
            let (closed, third) = step(held, end, session_id);
            &&& second == nothing::<T>()
            &&& held.mode == ControlModeState::InResponse
            &&& held.current_response == Some(block)
            &&& held.response_output == seq![fake]
            &&& held.pending_completion == s.pending_completion
            &&& third.completion_tx == s.pending_completion
            &&& third.completion_result == Some(ResultView::Success { output: fake })
            &&& closed.mode == ControlModeState::Idle
        }),
{
    lemma_begin_classifies(begin);
    lemma_end_is_not_exit(fake);
    lemma_end_is_not_exit(end);
    reveal_strlit("%begin ");
    assert(begin.len() > 0);
    let opened = step(s, begin, session_id).0;
    assert(resynchronizes(begin));
    assert(opened.current_response == Some(block));
    assert(opened.response_output =~= seq![]);
    let held = step(opened, fake, session_id).0;
    assert(!ends_block(fake, opened.current_response));
    assert(held.response_output =~= seq![fake]);
    assert(joined_lines(seq![fake]) == fake);
    assert(ends_block(end, held.current_response));
}

/// After a timeout the channel is in recovery, and in recovery every line
/// is dropped, without effect, unless it begins a response or is the exit.
pub proof fn lemma_recovery_discards<T>(line: Seq<char>, session_id: Seq<char>)
    requires
        !resynchronizes(line),
    ensures
        step(recovering::<T>(), line, session_id) == (recovering::<T>(), nothing::<T>()),
        well_formed(recovering::<T>()),
{
}

/// Recovery ends with the response that begins next: its lines are kept
/// again.
pub proof fn lemma_recovery_ends_at_begin<T>(
    line: Seq<char>,
    block: BlockView,
    session_id: Seq<char>,
)
    requires
        has_prefix(line, "%begin "@),
        block_of(line) == Some(block),
    ensures
        step(recovering::<T>(), line, session_id).0.mode == ControlModeState::InResponse,
        step(recovering::<T>(), line, session_id).0.current_response == Some(block),
{
    lemma_begin_classifies(line);
    reveal_strlit("%begin ");
    assert(line.len() > 0);
}

/// Whether each field of a block is one word, as the multiplexer writes
/// them.
pub open spec fn is_written(block: BlockView) -> bool {
    is_word(block.id) && is_word(block.number) && is_word(block.flags)
}

proof fn lemma_markers()
    ensures
        is_word("%begin"@),
        is_word("%end"@),
        is_word("%error"@),
        "%begin "@ == "%begin"@ + seq![' '],
        "%end "@ == "%end"@ + seq![' '],
        "%error "@ == "%error"@ + seq![' '],
{
    reveal_strlit("%begin");
    reveal_strlit("%end");
    reveal_strlit("%error");
    reveal_strlit("%begin ");
    reveal_strlit("%end ");
    reveal_strlit("%error ");
    assert("%begin "@ =~= "%begin"@ + seq![' ']);
    assert("%end "@ =~= "%end"@ + seq![' ']);
    assert("%error "@ =~= "%error"@ + seq![' ']);
}

/// On the wire: `%begin <id> <n> <f>` followed at once by `%end <id> <n>
/// <f>` is a command that succeeded without output, whatever the three
/// fields are.
pub proof fn lemma_begin_then_end<T>(s: ParserView<T>, block: BlockView, session_id: Seq<char>)
    requires
        well_formed(s),
        s.mode == ControlModeState::Idle || s.mode == ControlModeState::Recovery,
        is_written(block),
    ensures
        ({
            let (opened, first) = step(s, framing_line("%begin"@, block), session_id);
            let (closed, second) = step(opened, framing_line("%end"@, block), session_id);
            &&& first == nothing::<T>()
            &&& second.completion_tx == s.pending_completion
            &&& second.completion_result == Some(ResultView::Success { output: seq![] })
            &&& !second.should_exit
            &&& closed.mode == ControlModeState::Idle
            &&& closed.response_output.len() == 0
        }),
{
    lemma_markers();
    lemma_framing_line_names_block("%begin"@, block);
    lemma_framing_line_names_block("%end"@, block);
    lemma_empty_response(s, framing_line("%begin"@, block), framing_line("%end"@, block), block, session_id);
}

/// On the wire: between `%begin A` and `%end A`, a line that reads `%end B`
/// or `%error B` for another block `B` is content. It ends nothing, and it
/// is delivered as the output of the command when `%end A` arrives.
pub proof fn lemma_end_of_another_block<T>(
    s: ParserView<T>,
    block: BlockView,
    other: BlockView,
    looks_like_error: bool,
    session_id: Seq<char>,
)
    requires
        well_formed(s),
        s.mode == ControlModeState::Idle || s.mode == ControlModeState::Recovery,
        is_written(block),
        is_written(other),
        other != block,
    ensures
        ({
            let fake = framing_line(
                if looks_like_error {
                    "%error"@
                } else {
                    "%end"@
                },
                other,
            );
            let (opened, first) = step(s, framing_line("%begin"@, block), session_id);
            let (held, second) = step(opened, fake, session_id);
            let (closed, third) = step(held, framing_line("%end"@, block), session_id);
            &&& second == nothing::<T>()
            &&& held.mode == ControlModeState::InResponse
            &&& held.response_output == seq![fake]
            &&& third.completion_tx == s.pending_completion
            &&& third.completion_result == Some(ResultView::Success { output: fake })
            &&& closed.mode == ControlModeState::Idle
        }),
{
    lemma_markers();
    let marker = if looks_like_error {
        "%error"@
    } else {
        "%end"@
    };
    lemma_framing_line_names_block("%begin"@, block);
    lemma_framing_line_names_block("%end"@, block);
    lemma_framing_line_names_block(marker, other);
    lemma_foreign_end_is_content(
        s,
        framing_line("%begin"@, block),
        framing_line(marker, other),
        framing_line("%end"@, block),
        block,
        other,
        session_id,
    );
}

} // verus!
